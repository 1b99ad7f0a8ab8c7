//! Clipping through the library with the linesweeper kernels: area clips,
//! line clips, batches.

use std::collections::HashMap;
use kurbo::{flatten, BezPath, PathEl, Point, Shape};
use linesweeper::sweep;
use linesweeper::topology::{BinaryWindingNumber, Topology};
use linesweeper::{SegIdx, Segments};

use cetz_core::{
    area_clip, boolean_wire_paths, clip_flat_subpath, flat_polyline, keeps_piece, line_clip_without_region, parse_mode, result_inside, true_runs,
    BoolOp, BooleanParams, ClipKernels, ClipMode, ClipPathArgs, ClipPathBatchArgs, ClipPathBatchBody,
    ClipPathBatchOutput, ClipPathOutput, FillRule, FlatEvent, LineClipParams, LinePiece, PathOpsErr, WirePath, WireSegment,
    WireSubpath,
};

/// The geometry runs unguarded here: a panic fails the test.
fn catch_panic<T, F: FnOnce() -> T>(f: F) -> Result<T, ()> {
    Ok(f())
}

// Geometry kernels: conversions, tolerance, boolean operation.

/// A wire path with `[x, y]` coordinates.
pub type Wire = WirePath<[f64; 2]>;

pub fn to_point(p: [f64; 2]) -> Point {
    Point::new(p[0], p[1])
}

pub fn to_coords(p: Point) -> [f64; 2] {
    [p.x, p.y]
}

// Builds a kurbo path of f64 points: floating point, outside the verified library.
/// The kurbo path of one subpath.
pub fn subpath_to_bez(subpath: &WireSubpath<[f64; 2]>) -> BezPath {
    let mut bez = BezPath::new();
    bez.move_to(to_point(subpath.origin));
    for seg in &subpath.segments {
        match seg {
            WireSegment::Line { to } => bez.line_to(to_point(*to)),
            WireSegment::Cubic { c1, c2, to } => bez.curve_to(to_point(*c1), to_point(*c2), to_point(*to)),
        }
    }
    if subpath.closed {
        bez.close_path();
    }
    bez
}

// Builds a kurbo path of f64 points: floating point, outside the verified library.
/// The kurbo path of a wire path, subpath by subpath.
pub fn wire_to_bez(path: &Wire) -> BezPath {
    let mut bez = BezPath::new();
    for subpath in &path.subpaths {
        bez.extend(subpath_to_bez(subpath));
    }
    bez
}

// Reads a kurbo path of f64 points: floating point, outside the verified library.
/// The wire path of a kurbo path; quadratic segments are raised to cubics.
/// A segment that does not follow a `MoveTo` makes the path malformed.
pub fn bez_to_wire(bez: &BezPath) -> Result<Wire, PathOpsErr> {
    let mut subpaths = Vec::new();
    let mut current: Option<WireSubpath<[f64; 2]>> = None;
    for el in bez.elements() {
        match *el {
            PathEl::MoveTo(p) => {
                if let Some(sp) = current.take() {
                    subpaths.push(sp);
                }
                current = Some(WireSubpath { origin: to_coords(p), closed: false, segments: Vec::new() });
            }
            PathEl::LineTo(p) => {
                let sp = current.as_mut().ok_or(PathOpsErr::MalformedPath)?;
                sp.segments.push(WireSegment::Line { to: to_coords(p) });
            }
            PathEl::QuadTo(c, p) => {
                let sp = current.as_mut().ok_or(PathOpsErr::MalformedPath)?;
                let start = match sp.segments.last() {
                    Some(WireSegment::Line { to }) | Some(WireSegment::Cubic { to, .. }) => to_point(*to),
                    None => to_point(sp.origin),
                };
                let c1 = start + (c - start) * (2.0 / 3.0);
                let c2 = p + (c - p) * (2.0 / 3.0);
                sp.segments.push(WireSegment::Cubic { c1: to_coords(c1), c2: to_coords(c2), to: to_coords(p) });
            }
            PathEl::CurveTo(c1, c2, p) => {
                let sp = current.as_mut().ok_or(PathOpsErr::MalformedPath)?;
                sp.segments.push(WireSegment::Cubic { c1: to_coords(c1), c2: to_coords(c2), to: to_coords(p) });
            }
            PathEl::ClosePath => {
                let mut sp = current.take().ok_or(PathOpsErr::MalformedPath)?;
                sp.closed = true;
                subpaths.push(sp);
            }
        }
    }
    if let Some(sp) = current {
        subpaths.push(sp);
    }
    Ok(WirePath { subpaths })
}

/// Every coordinate of a path, control points included.
fn coordinates(path: &Wire) -> Vec<[f64; 2]> {
    let mut out = Vec::new();
    for sp in &path.subpaths {
        out.push(sp.origin);
        for seg in &sp.segments {
            match seg {
                WireSegment::Line { to } => out.push(*to),
                WireSegment::Cubic { c1, c2, to } => {
                    out.push(*c1);
                    out.push(*c2);
                    out.push(*to);
                }
            }
        }
    }
    out
}

// Scales a tolerance from f64 coordinates: floating point, outside the verified library.
/// A tolerance proportional to the size of the coordinates of all paths
/// (one millionth of the largest magnitude, at least one millionth).
pub fn auto_eps(paths: &Vec<&Wire>) -> Result<f64, PathOpsErr> {
    let mut scale: f64 = 1.0;
    for path in paths {
        for p in coordinates(path) {
            if !p[0].is_finite() || !p[1].is_finite() {
                return Err(PathOpsErr::LinesweeperFailed("non-finite coordinate".into()));
            }
            scale = scale.max(p[0].abs()).max(p[1].abs());
        }
    }
    Ok(scale * 1e-6)
}

// Sweeps f64 geometry with linesweeper: floating point, outside the verified library; the region selector is the library's.
/// The boolean operation between two kurbo paths, each with its own fill
/// rule; a failure or a panic inside linesweeper is reported as an error.
pub fn boolean_bez_paths(
    a: &BezPath,
    b: &BezPath,
    op: BoolOp,
    fill_rule_a: FillRule,
    fill_rule_b: FillRule,
    eps: f64,
) -> Result<Wire, PathOpsErr> {
    // catch_unwind so a panic inside linesweeper turns into a recoverable
    // error rather than aborting the WASM module.
    let result = catch_panic(|| {
        let topology = Topology::from_paths_binary(a, b, eps).map_err(|e| e.to_string())?;
        let inside = |w: &BinaryWindingNumber| result_inside(op, fill_rule_a, fill_rule_b, w.shape_a, w.shape_b);
        Ok::<_, String>(topology.contours(inside))
    });

    let contours = match result {
        Ok(Ok(c)) => c,
        Ok(Err(msg)) => return Err(PathOpsErr::LinesweeperFailed(msg)),
        Err(_) => return Err(PathOpsErr::LinesweeperFailed("linesweeper panicked".into())),
    };

    let mut combined = WirePath::empty();
    for contour in contours.contours() {
        let mut wire = bez_to_wire(&contour.path)?;
        combined.subpaths.append(&mut wire.subpaths);
    }
    Ok(combined)
}

/// The boolean kernel: converts both paths and runs the operation.
pub fn boolean_kernel(a: &Wire, b: &Wire, params: BooleanParams<f64>) -> Result<Wire, PathOpsErr> {
    boolean_bez_paths(
        &wire_to_bez(a),
        &wire_to_bez(b),
        params.op,
        params.fill_rule_a,
        params.fill_rule_b,
        params.eps,
    )
}

// Line clipping kernel.

#[derive(Debug, Clone)]
struct FlatSubpath {
    original_idx: usize,
    closed: bool,
    points: Vec<Point>,
}

#[derive(Debug, Clone, Copy)]
struct FlatLine {
    p0: Point,
    p1: Point,
}

#[derive(Debug, Clone, Copy)]
struct LineBounds {
    min_x: f64,
    min_y: f64,
    max_x: f64,
    max_y: f64,
}

#[derive(Debug, Clone, Copy)]
struct BoundaryEntry {
    line: FlatLine,
    bounds: LineBounds,
}

#[derive(Debug, Clone)]
struct BoundaryIndex {
    entries: Vec<BoundaryEntry>,
}

// Bounding boxes of f64 coordinates: floating point, outside the verified library.
impl LineBounds {
    fn from_line(line: FlatLine) -> Self {
        Self {
            min_x: line.p0.x.min(line.p1.x),
            min_y: line.p0.y.min(line.p1.y),
            max_x: line.p0.x.max(line.p1.x),
            max_y: line.p0.y.max(line.p1.y),
        }
    }

    fn from_point(p: Point, tol: f64) -> Self {
        Self { min_x: p.x - tol, min_y: p.y - tol, max_x: p.x + tol, max_y: p.y + tol }
    }

    fn expand(self, tol: f64) -> Self {
        Self {
            min_x: self.min_x - tol,
            min_y: self.min_y - tol,
            max_x: self.max_x + tol,
            max_y: self.max_y + tol,
        }
    }

    fn union(self, other: Self) -> Self {
        Self {
            min_x: self.min_x.min(other.min_x),
            min_y: self.min_y.min(other.min_y),
            max_x: self.max_x.max(other.max_x),
            max_y: self.max_y.max(other.max_y),
        }
    }

    fn overlaps(self, other: Self) -> bool {
        self.min_x <= other.max_x
            && self.max_x >= other.min_x
            && self.min_y <= other.max_y
            && self.max_y >= other.min_y
    }
}

// Spatial index over f64 bounding boxes: floating point, outside the verified library.
impl BoundaryIndex {
    fn new(lines: Vec<FlatLine>) -> Self {
        let mut entries: Vec<_> = lines
            .into_iter()
            .map(|line| BoundaryEntry { line, bounds: LineBounds::from_line(line) })
            .collect();
        entries.sort_by(|a, b| a.bounds.min_y.partial_cmp(&b.bounds.min_y).unwrap());
        Self { entries }
    }

    fn any_overlapping(&self, bounds: LineBounds) -> bool {
        for entry in &self.entries {
            if entry.bounds.min_y > bounds.max_y {
                break;
            }
            if entry.bounds.overlaps(bounds) {
                return true;
            }
        }
        false
    }

    fn line_may_touch_boundary(&self, line: FlatLine, tol: f64) -> bool {
        self.any_overlapping(LineBounds::from_line(line).expand(tol))
    }

    fn point_on_boundary(&self, p: Point, tol: f64) -> bool {
        let tol_sq = tol * tol;
        let bounds = LineBounds::from_point(p, tol);
        for entry in &self.entries {
            if entry.bounds.min_y > bounds.max_y {
                break;
            }
            if entry.bounds.overlaps(bounds)
                && point_to_segment_distance_sq(p, entry.line.p0, entry.line.p1) <= tol_sq
            {
                return true;
            }
        }
        false
    }
}

fn close_enough(a: Point, b: Point, tol: f64) -> bool {
    a.distance_squared(b) <= tol * tol
}

fn lerp(a: Point, b: Point, t: f64) -> Point {
    Point::new(a.x + (b.x - a.x) * t, a.y + (b.y - a.y) * t)
}

// Euclidean distance in f64: floating point, outside the verified library.
fn point_to_segment_distance_sq(p: Point, a: Point, b: Point) -> f64 {
    let ab = b - a;
    let len_sq = ab.hypot2();
    if len_sq == 0.0 {
        return p.distance_squared(a);
    }
    let ap = p - a;
    let t = (ap.dot(ab) / len_sq).clamp(0.0, 1.0);
    p.distance_squared(a + ab * t)
}

// kurbo flattening of curves into f64 points: floating point; the polyline rules are the library's.
fn flatten_wire(path: &WirePath<[f64; 2]>, tolerance: f64, tol: f64) -> Vec<FlatSubpath> {
    let close = |a: &Point, b: &Point| close_enough(*a, *b, tol);
    path.subpaths
        .iter()
        .enumerate()
        .filter_map(|(original_idx, subpath)| {
            let bez = subpath_to_bez(subpath);
            let mut events = Vec::new();
            flatten(bez.iter(), tolerance, |el| match el {
                PathEl::MoveTo(p) => events.push(FlatEvent::Start(p)),
                PathEl::LineTo(p) => events.push(FlatEvent::LineTo(p)),
                PathEl::ClosePath => events.push(FlatEvent::Close),
                PathEl::QuadTo(_, _) | PathEl::CurveTo(_, _, _) => {}
            });
            let origin = Point::new(subpath.origin[0], subpath.origin[1]);
            flat_polyline(&events, origin, subpath.closed, &close)
                .map(|points| FlatSubpath { original_idx, closed: subpath.closed, points })
        })
        .collect()
}

fn lines_for_subpath(subpath: &FlatSubpath) -> impl Iterator<Item = FlatLine> + '_ {
    subpath.points.windows(2).map(|pts| FlatLine { p0: pts[0], p1: pts[1] })
}

fn boundary_lines(flat_clip: &[FlatSubpath]) -> Vec<FlatLine> {
    flat_clip.iter().flat_map(lines_for_subpath).collect()
}

// Sweep crossing positions as f64 line parameters: floating point, outside the verified library.
fn push_event_t(ts: &mut Vec<f64>, line: FlatLine, y: f64, x: f64) {
    let dx = line.p1.x - line.p0.x;
    let dy = line.p1.y - line.p0.y;
    let denom = if dx.abs() >= dy.abs() { dx } else { dy };
    if denom == 0.0 {
        return;
    }
    let t = if dx.abs() >= dy.abs() { (x - line.p0.x) / dx } else { (y - line.p0.y) / dy };
    if t.is_finite() && (-1e-9..=1.0 + 1e-9).contains(&t) {
        ts.push(t.clamp(0.0, 1.0));
    }
}

// Selects boundary segments by f64 bounding boxes; the runs themselves come from the library.
fn add_clip_runs(segments: &mut Segments, flat_clip: &[FlatSubpath], bounds: LineBounds, eps: f64) {
    for subpath in flat_clip {
        let lines: Vec<_> = lines_for_subpath(subpath).collect();
        let overlapping: Vec<bool> = lines
            .iter()
            .map(|line| {
                !close_enough(line.p0, line.p1, eps) && LineBounds::from_line(*line).expand(eps).overlaps(bounds)
            })
            .collect();
        for (start, end) in true_runs(&overlapping) {
            add_open_line_run(segments, &lines, start, end);
        }
    }
}

fn add_open_line_run(segments: &mut Segments, lines: &[FlatLine], start: usize, end: usize) {
    if start >= end {
        return;
    }
    let mut points = Vec::with_capacity(end - start + 1);
    points.push(lines[start].p0);
    points.extend(lines[start..end].iter().map(|line| line.p1));
    segments.add_points(points);
}

// Drives linesweeper's sweep over f64 segments: floating point, outside the verified library.
fn collect_split_ts(
    flat_clip: &[FlatSubpath],
    body_lines: &[Vec<FlatLine>],
    touch_candidates: &[Vec<bool>],
    boundary_tol: f64,
    eps: f64,
) -> Result<Vec<Vec<Vec<f64>>>, PathOpsErr> {
    let mut split_ts: Vec<Vec<Vec<f64>>> =
        body_lines.iter().map(|lines| lines.iter().map(|_| vec![0.0, 1.0]).collect()).collect();

    let mut candidate_bounds: Option<LineBounds> = None;
    for (lines, candidates) in body_lines.iter().zip(touch_candidates) {
        for (line, candidate) in lines.iter().zip(candidates) {
            if !candidate {
                continue;
            }
            let bounds = LineBounds::from_line(*line).expand(boundary_tol);
            candidate_bounds = Some(match candidate_bounds {
                Some(acc) => acc.union(bounds),
                None => bounds,
            });
        }
    }

    let Some(candidate_bounds) = candidate_bounds else {
        return Ok(split_ts);
    };

    let mut segments = Segments::default();
    add_clip_runs(&mut segments, flat_clip, candidate_bounds, eps);

    let mut body_seg_map: HashMap<SegIdx, (usize, usize)> = HashMap::new();

    for (subpath_idx, (lines, candidates)) in body_lines.iter().zip(touch_candidates).enumerate() {
        for (start, end) in true_runs(candidates) {
            add_body_run(&mut segments, &mut body_seg_map, lines, subpath_idx, start, end);
        }
    }

    if body_seg_map.is_empty() {
        return Ok(split_ts);
    }

    let result = catch_panic(|| {
        sweep::sweep(&segments, eps, |y, ev| {
            if let Some(&(subpath_idx, line_idx)) = body_seg_map.get(&ev.seg_idx) {
                let line = body_lines[subpath_idx][line_idx];
                let ts = &mut split_ts[subpath_idx][line_idx];
                push_event_t(ts, line, y, ev.x0);
                push_event_t(ts, line, y, ev.x1);
            }
        });
    });

    match result {
        Ok(()) => Ok(split_ts),
        Err(_) => Err(PathOpsErr::LinesweeperFailed("linesweeper panicked".into())),
    }
}

// Tests f64 bounding boxes against the boundary: floating point, outside the verified library.
fn body_touch_candidates(
    body_lines: &[Vec<FlatLine>],
    boundary: &BoundaryIndex,
    boundary_tol: f64,
    eps: f64,
) -> Vec<Vec<bool>> {
    body_lines
        .iter()
        .map(|lines| {
            lines
                .iter()
                .map(|line| {
                    !close_enough(line.p0, line.p1, eps) && boundary.line_may_touch_boundary(*line, boundary_tol)
                })
                .collect()
        })
        .collect()
}

fn add_body_run(
    segments: &mut Segments,
    body_seg_map: &mut HashMap<SegIdx, (usize, usize)>,
    lines: &[FlatLine],
    subpath_idx: usize,
    start: usize,
    end: usize,
) {
    if start >= end {
        return;
    }
    let before = segments.len();
    add_open_line_run(segments, lines, start, end);
    for (offset, idx) in segments
        .indices()
        .enumerate()
        .skip(before)
        .take(end - start)
        .map(|(pos, idx)| (pos - before, idx))
    {
        body_seg_map.insert(idx, (subpath_idx, start + offset));
    }
}

// Sorts and merges f64 line parameters: floating point, outside the verified library.
fn normalize_ts(ts: &mut Vec<f64>, line: FlatLine, eps: f64) {
    ts.sort_by(|a, b| a.partial_cmp(b).unwrap());
    let length = (line.p1 - line.p0).hypot();
    let tol = if length > 0.0 { (eps / length).max(1e-10) } else { 1e-10 };
    ts.dedup_by(|a, b| (*a - *b).abs() <= tol);
}

// Probes a f64 point (boundary distance, kurbo winding number); the keep decision is the library's.
fn classify_interval(
    clip_bez: &BezPath,
    boundary: &BoundaryIndex,
    fill_rule: FillRule,
    mode: ClipMode,
    p: Point,
    boundary_tol: f64,
) -> bool {
    let on_boundary = boundary.point_on_boundary(p, boundary_tol);
    let winding = if on_boundary { 0 } else { clip_bez.winding(p) };
    keeps_piece(mode, fill_rule, on_boundary, winding)
}

/// A clip region prepared for line clipping: flattened once, with an index
/// of its boundary segments.
pub struct PreparedLineClip {
    clip_bez: BezPath,
    flat_clip: Vec<FlatSubpath>,
    boundary: BoundaryIndex,
    fill_rule: FillRule,
    mode: ClipMode,
    eps: f64,
    flatten_tol: f64,
    point_tol: f64,
    boundary_tol: f64,
    empty_clip: bool,
}

// Line clipping over f64 geometry: floating point; the decisions it takes are the library's.
impl PreparedLineClip {
    pub fn new(clip_region: &WirePath<[f64; 2]>, fill_rule: FillRule, mode: ClipMode, eps: f64) -> Self {
        let flatten_tol = eps.max(1e-5);
        let point_tol = eps.max(1e-9);
        let boundary_tol = (eps.max(flatten_tol)) * 8.0;
        let flat_clip = if clip_region.subpaths.is_empty() {
            Vec::new()
        } else {
            flatten_wire(clip_region, flatten_tol, point_tol)
        };
        let empty_clip = clip_region.subpaths.is_empty() || flat_clip.is_empty();
        let boundary = BoundaryIndex::new(boundary_lines(&flat_clip));

        Self {
            clip_bez: wire_to_bez(clip_region),
            flat_clip,
            boundary,
            fill_rule,
            mode,
            eps,
            flatten_tol,
            point_tol,
            boundary_tol,
            empty_clip,
        }
    }

    /// The line-clipping kernel's preparation step.
    pub fn prepare(clip_region: &WirePath<[f64; 2]>, params: LineClipParams<f64>) -> Self {
        Self::new(clip_region, params.fill_rule, params.mode, params.eps)
    }

    pub fn clip_body(&self, body: &WirePath<[f64; 2]>) -> Result<WirePath<[f64; 2]>, PathOpsErr> {
        if self.empty_clip {
            return Ok(line_clip_without_region(self.mode, body));
        }

        let flat_body = flatten_wire(body, self.flatten_tol, self.point_tol);
        if flat_body.is_empty() {
            return Ok(WirePath::empty());
        }

        let body_lines: Vec<Vec<FlatLine>> = flat_body.iter().map(|sp| lines_for_subpath(sp).collect()).collect();
        let touch_candidates = body_touch_candidates(&body_lines, &self.boundary, self.boundary_tol, self.eps);
        let mut split_ts =
            collect_split_ts(&self.flat_clip, &body_lines, &touch_candidates, self.boundary_tol, self.eps)?;
        let mut output = WirePath::empty();
        let point_tol = self.point_tol;
        let close = |a: &[f64; 2], b: &[f64; 2]| {
            close_enough(Point::new(a[0], a[1]), Point::new(b[0], b[1]), point_tol)
        };

        let keep = |p: &Point| {
            classify_interval(&self.clip_bez, &self.boundary, self.fill_rule, self.mode, *p, self.boundary_tol)
        };

        for (subpath_idx, subpath) in flat_body.iter().enumerate() {
            let lines = &body_lines[subpath_idx];
            let may_touch_boundary = touch_candidates[subpath_idx].iter().any(|candidate| *candidate);
            let whole_probe = lerp(lines[0].p0, lines[0].p1, 0.5);
            let mut pieces: Vec<LinePiece<[f64; 2], Point>> = Vec::new();
            if may_touch_boundary {
                for (line_idx, line) in lines.iter().copied().enumerate() {
                    let ts = &mut split_ts[subpath_idx][line_idx];
                    normalize_ts(ts, line, self.eps);
                    for pair in ts.windows(2) {
                        let t0 = pair[0];
                        let t1 = pair[1];
                        if t1 <= t0 {
                            continue;
                        }
                        pieces.push(LinePiece {
                            start: to_coords(lerp(line.p0, line.p1, t0)),
                            end: to_coords(lerp(line.p0, line.p1, t1)),
                            probe: lerp(line.p0, line.p1, (t0 + t1) * 0.5),
                        });
                    }
                }
            }
            output.subpaths.extend(clip_flat_subpath(
                &body.subpaths[subpath.original_idx],
                subpath.closed,
                may_touch_boundary,
                &whole_probe,
                &pieces,
                &keep,
                &close,
            ));
        }

        Ok(output)
    }
}

// Helpers.

fn clip_line(prepared: &PreparedLineClip, body: &Wire) -> Result<Wire, PathOpsErr> {
    prepared.clip_body(body)
}

fn clip_path(args: ClipPathArgs<[f64; 2], f64>) -> Result<ClipPathOutput<[f64; 2]>, PathOpsErr> {
    let kernels = ClipKernels {
        auto_eps,
        boolean: boolean_kernel,
        prepare_line: PreparedLineClip::prepare,
        clip_line,
    };
    cetz_core::clip_path(args, &kernels)
}

fn clip_path_batch(args: ClipPathBatchArgs<[f64; 2], f64>) -> Result<ClipPathBatchOutput<[f64; 2]>, PathOpsErr> {
    let kernels = ClipKernels {
        auto_eps,
        boolean: boolean_kernel,
        prepare_line: PreparedLineClip::prepare,
        clip_line,
    };
    cetz_core::clip_path_batch(args, &kernels)
}

/// The line clip of `body` against `clip_region`, through a single clip request.
fn clip_line_path(
    clip_region: &Wire,
    body: &Wire,
    fill_rule: FillRule,
    mode: ClipMode,
    eps: f64,
) -> Result<Wire, PathOpsErr> {
    let out = clip_path(ClipPathArgs {
        clip_region: clip_region.clone(),
        body: body.clone(),
        mode: match mode {
            ClipMode::Include => "include".into(),
            ClipMode::Exclude => "exclude".into(),
        },
        clip_fill_rule: match fill_rule {
            FillRule::NonZero => "non-zero".into(),
            FillRule::EvenOdd => "even-odd".into(),
        },
        body_fill_rule: "non-zero".into(),
        eps: Some(eps),
        need_line: true,
        need_area: false,
    })?;
    assert!(out.area_path.is_none());
    Ok(out.line_path.expect("a line clip was asked for"))
}

fn rect_wire(min: (f64, f64), max: (f64, f64)) -> Wire {
    WirePath {
        subpaths: vec![WireSubpath {
            origin: [min.0, min.1],
            closed: true,
            segments: vec![
                WireSegment::Line { to: [max.0, min.1] },
                WireSegment::Line { to: [max.0, max.1] },
                WireSegment::Line { to: [min.0, max.1] },
            ],
        }],
    }
}

fn line_wire(a: (f64, f64), b: (f64, f64)) -> Wire {
    WirePath {
        subpaths: vec![WireSubpath {
            origin: [a.0, a.1],
            closed: false,
            segments: vec![WireSegment::Line { to: [b.0, b.1] }],
        }],
    }
}

fn cubic_wire(start: (f64, f64), c1: (f64, f64), c2: (f64, f64), end: (f64, f64)) -> Wire {
    WirePath {
        subpaths: vec![WireSubpath {
            origin: [start.0, start.1],
            closed: false,
            segments: vec![WireSegment::Cubic {
                c1: [c1.0, c1.1],
                c2: [c2.0, c2.1],
                to: [end.0, end.1],
            }],
        }],
    }
}

fn clip_args(
    clip_region: Wire,
    body: Wire,
    mode: &str,
    eps: Option<f64>,
    need_line: bool,
    need_area: bool,
) -> ClipPathArgs<[f64; 2], f64> {
    ClipPathArgs {
        clip_region,
        body,
        mode: mode.into(),
        clip_fill_rule: "non-zero".into(),
        body_fill_rule: "non-zero".into(),
        eps,
        need_line,
        need_area,
    }
}

fn batch_body(body: Wire, need_line: bool, need_area: bool) -> ClipPathBatchBody<[f64; 2]> {
    ClipPathBatchBody {
        body,
        body_fill_rule: "non-zero".into(),
        need_line,
        need_area,
    }
}

// Line clipping.

#[test]
fn include_open_line_through_rect() {
    let out = clip_line_path(
        &rect_wire((0.0, 0.0), (1.0, 1.0)),
        &line_wire((-1.0, 0.5), (2.0, 0.5)),
        FillRule::NonZero,
        ClipMode::Include,
        1e-6,
    )
    .unwrap();
    assert_eq!(out.subpaths.len(), 1);
    assert_eq!(out.subpaths[0].origin, [0.0, 0.5]);
    assert_eq!(
        out.subpaths[0].segments,
        vec![WireSegment::Line { to: [1.0, 0.5] }]
    );
}

#[test]
fn exclude_open_line_through_rect() {
    let out = clip_line_path(
        &rect_wire((0.0, 0.0), (1.0, 1.0)),
        &line_wire((-1.0, 0.5), (2.0, 0.5)),
        FillRule::NonZero,
        ClipMode::Exclude,
        1e-6,
    )
    .unwrap();
    assert_eq!(out.subpaths.len(), 2);
    assert_eq!(out.subpaths[0].origin, [-1.0, 0.5]);
    assert_eq!(out.subpaths[1].origin, [1.0, 0.5]);
}

#[test]
fn boundary_line_include_keeps_exclude_drops() {
    let clip = rect_wire((0.0, 0.0), (1.0, 1.0));
    let body = line_wire((0.0, 0.0), (1.0, 0.0));
    let kept_in =
        clip_line_path(&clip, &body, FillRule::NonZero, ClipMode::Include, 1e-6).unwrap();
    let kept_out =
        clip_line_path(&clip, &body, FillRule::NonZero, ClipMode::Exclude, 1e-6).unwrap();
    assert_eq!(kept_in.subpaths.len(), 1);
    assert!(kept_out.subpaths.is_empty());
}

#[test]
fn clipped_closed_outline_becomes_open_piece() {
    let out = clip_line_path(
        &rect_wire((0.0, 0.0), (1.0, 1.0)),
        &rect_wire((-0.5, 0.25), (0.5, 0.75)),
        FillRule::NonZero,
        ClipMode::Include,
        1e-6,
    )
    .unwrap();
    assert_eq!(out.subpaths.len(), 1);
    assert!(!out.subpaths[0].closed);
    assert_eq!(out.subpaths[0].origin, [0.0, 0.25]);
}

#[test]
fn include_curve_inside_rect_preserves_original_curve() {
    let body = cubic_wire((0.2, 0.2), (0.3, 0.9), (0.7, 0.1), (0.8, 0.8));
    let out = clip_line_path(
        &rect_wire((0.0, 0.0), (1.0, 1.0)),
        &body,
        FillRule::NonZero,
        ClipMode::Include,
        1e-6,
    )
    .unwrap();
    assert_eq!(out, body);
}

#[test]
fn exclude_curve_outside_rect_preserves_original_curve() {
    let body = cubic_wire((2.0, 0.2), (2.3, 0.9), (2.7, 0.1), (2.8, 0.8));
    let out = clip_line_path(
        &rect_wire((0.0, 0.0), (1.0, 1.0)),
        &body,
        FillRule::NonZero,
        ClipMode::Exclude,
        1e-6,
    )
    .unwrap();
    assert_eq!(out, body);
}

#[test]
fn empty_clip_exclude_preserves_original_body() {
    let body = line_wire((0.0, 0.0), (1.0, 0.0));
    let out = clip_line_path(
        &WirePath::empty(),
        &body,
        FillRule::NonZero,
        ClipMode::Exclude,
        1e-6,
    )
    .unwrap();
    assert_eq!(out, body);
}

// Area clipping and batches.

#[test]
fn area_include_matches_boolean_intersection() {
    let clip = rect_wire((0.0, 0.0), (1.0, 1.0));
    let body = rect_wire((-0.5, -0.5), (0.5, 0.5));
    let area = area_clip(
        &clip,
        &body,
        ClipMode::Include,
        FillRule::NonZero,
        FillRule::NonZero,
        1e-6,
        &boolean_kernel,
    )
    .unwrap();
    let expected = boolean_wire_paths(
        &body,
        &clip,
        BoolOp::Intersection,
        FillRule::NonZero,
        FillRule::NonZero,
        Some(1e-6),
        &auto_eps,
        &boolean_kernel,
    )
    .unwrap();
    assert_eq!(area, expected);
}

#[test]
fn area_exclude_matches_boolean_difference() {
    let clip = rect_wire((0.0, 0.0), (1.0, 1.0));
    let body = rect_wire((-0.5, -0.5), (0.5, 0.5));
    let area = area_clip(
        &clip,
        &body,
        ClipMode::Exclude,
        FillRule::NonZero,
        FillRule::NonZero,
        1e-6,
        &boolean_kernel,
    )
    .unwrap();
    let expected = boolean_wire_paths(
        &body,
        &clip,
        BoolOp::Difference,
        FillRule::NonZero,
        FillRule::NonZero,
        Some(1e-6),
        &auto_eps,
        &boolean_kernel,
    )
    .unwrap();
    assert_eq!(area, expected);
}

#[test]
fn invalid_mode_is_rejected() {
    assert!(matches!(
        parse_mode("inside"),
        Err(PathOpsErr::InvalidMode(_))
    ));
}

#[test]
fn batch_single_body_matches_single_api() {
    let clip = rect_wire((0.0, 0.0), (1.0, 1.0));
    let body = line_wire((-1.0, 0.5), (2.0, 0.5));
    let single = clip_path(clip_args(
        clip.clone(),
        body.clone(),
        "include",
        Some(1e-6),
        true,
        false,
    ))
    .unwrap();
    let batch = clip_path_batch(ClipPathBatchArgs {
        clip_region: clip,
        bodies: vec![batch_body(body, true, false)],
        mode: "include".into(),
        clip_fill_rule: "non-zero".into(),
        eps: Some(1e-6),
    })
    .unwrap();
    assert_eq!(batch.outputs, vec![single]);
}

#[test]
fn batch_lines_match_individual_calls_with_explicit_eps() {
    let clip = rect_wire((0.0, 0.0), (1.0, 1.0));
    let bodies = vec![
        line_wire((-1.0, 0.5), (2.0, 0.5)),
        line_wire((0.0, 0.0), (1.0, 0.0)),
        line_wire((-1.0, 1.5), (2.0, 1.5)),
    ];
    let batch = clip_path_batch(ClipPathBatchArgs {
        clip_region: clip.clone(),
        bodies: bodies
            .iter()
            .cloned()
            .map(|body| batch_body(body, true, false))
            .collect(),
        mode: "exclude".into(),
        clip_fill_rule: "non-zero".into(),
        eps: Some(1e-6),
    })
    .unwrap();
    let expected = bodies
        .into_iter()
        .map(|body| {
            clip_path(clip_args(
                clip.clone(),
                body,
                "exclude",
                Some(1e-6),
                true,
                false,
            ))
            .unwrap()
        })
        .collect::<Vec<_>>();
    assert_eq!(batch.outputs, expected);
}

#[test]
fn batch_areas_match_individual_calls_with_explicit_eps() {
    let clip = rect_wire((0.0, 0.0), (1.0, 1.0));
    let bodies = vec![
        rect_wire((-0.5, -0.5), (0.5, 0.5)),
        rect_wire((0.25, 0.25), (1.25, 1.25)),
    ];
    let batch = clip_path_batch(ClipPathBatchArgs {
        clip_region: clip.clone(),
        bodies: bodies
            .iter()
            .cloned()
            .map(|body| batch_body(body, false, true))
            .collect(),
        mode: "include".into(),
        clip_fill_rule: "non-zero".into(),
        eps: Some(1e-6),
    })
    .unwrap();
    let expected = bodies
        .into_iter()
        .map(|body| {
            clip_path(clip_args(
                clip.clone(),
                body,
                "include",
                Some(1e-6),
                false,
                true,
            ))
            .unwrap()
        })
        .collect::<Vec<_>>();
    assert_eq!(batch.outputs, expected);
}

#[test]
fn batch_auto_eps_matches_individual_calls_with_batch_eps() {
    let clip = rect_wire((0.0, 0.0), (100.0, 100.0));
    let bodies = vec![
        line_wire((-10.0, 25.0), (110.0, 25.0)),
        rect_wire((50.0, 50.0), (120.0, 120.0)),
    ];
    let mut eps_paths = vec![&clip];
    eps_paths.extend(bodies.iter());
    let batch_eps = auto_eps(&eps_paths).unwrap();

    let batch = clip_path_batch(ClipPathBatchArgs {
        clip_region: clip.clone(),
        bodies: vec![
            batch_body(bodies[0].clone(), true, false),
            batch_body(bodies[1].clone(), false, true),
        ],
        mode: "include".into(),
        clip_fill_rule: "non-zero".into(),
        eps: None,
    })
    .unwrap();
    let expected = vec![
        clip_path(clip_args(
            clip.clone(),
            bodies[0].clone(),
            "include",
            Some(batch_eps),
            true,
            false,
        ))
        .unwrap(),
        clip_path(clip_args(
            clip,
            bodies[1].clone(),
            "include",
            Some(batch_eps),
            false,
            true,
        ))
        .unwrap(),
    ];
    assert_eq!(batch.outputs, expected);
}

#[test]
fn empty_batch_is_rejected() {
    let args = ClipPathBatchArgs {
        clip_region: rect_wire((0.0, 0.0), (1.0, 1.0)),
        bodies: Vec::new(),
        mode: "include".into(),
        clip_fill_rule: "non-zero".into(),
        eps: Some(1e-6),
    };
    assert!(matches!(clip_path_batch(args), Err(PathOpsErr::EmptyBatch)));
}

#[test]
fn batch_invalid_fill_rule_is_rejected() {
    let args = ClipPathBatchArgs {
        clip_region: rect_wire((0.0, 0.0), (1.0, 1.0)),
        bodies: vec![ClipPathBatchBody {
            body: line_wire((0.0, 0.0), (1.0, 0.0)),
            body_fill_rule: "bad-rule".into(),
            need_line: true,
            need_area: false,
        }],
        mode: "include".into(),
        clip_fill_rule: "non-zero".into(),
        eps: Some(1e-6),
    };
    assert!(matches!(
        clip_path_batch(args),
        Err(PathOpsErr::InvalidFillRule(_))
    ));
}

#[test]
fn open_clip_region_is_rejected() {
    let mut clip = rect_wire((0.0, 0.0), (1.0, 1.0));
    clip.subpaths[0].closed = false;
    let args = ClipPathArgs {
        clip_region: clip,
        body: rect_wire((0.0, 0.0), (1.0, 1.0)),
        mode: "include".into(),
        clip_fill_rule: "non-zero".into(),
        body_fill_rule: "non-zero".into(),
        eps: Some(1e-6),
        need_line: true,
        need_area: true,
    };
    assert!(matches!(clip_path(args), Err(PathOpsErr::OpenSubpath)));
}

// Further checks of the library's contract.

#[test]
fn batch_errors_come_in_order() {
    let good = || batch_body(line_wire((0.0, 0.0), (1.0, 0.0)), true, false);
    let bad_fill = ClipPathBatchBody {
        body: line_wire((0.0, 0.0), (1.0, 0.0)),
        body_fill_rule: "nonzero".into(),
        need_line: true,
        need_area: false,
    };
    let mut open_clip = rect_wire((0.0, 0.0), (1.0, 1.0));
    open_clip.subpaths[0].closed = false;
    // The mode is checked before the fill rules.
    let err = clip_path_batch(ClipPathBatchArgs {
        clip_region: open_clip.clone(),
        bodies: vec![good(), bad_fill],
        mode: "inside".into(),
        clip_fill_rule: "non-zero".into(),
        eps: None,
    })
    .unwrap_err();
    assert!(matches!(err, PathOpsErr::InvalidMode(ref m) if m == "inside"));
    // The clip fill rule before the bodies' fill rules.
    let err = clip_path_batch(ClipPathBatchArgs {
        clip_region: open_clip.clone(),
        bodies: vec![good()],
        mode: "include".into(),
        clip_fill_rule: "evenodd".into(),
        eps: None,
    })
    .unwrap_err();
    assert!(matches!(err, PathOpsErr::InvalidFillRule(ref f) if f == "evenodd"));
    // The first bad body fill rule is named, before the clip region is checked.
    let bad_second = ClipPathBatchBody {
        body: line_wire((0.0, 0.0), (1.0, 0.0)),
        body_fill_rule: "second".into(),
        need_line: false,
        need_area: true,
    };
    let bad_third = ClipPathBatchBody {
        body: line_wire((0.0, 0.0), (1.0, 0.0)),
        body_fill_rule: "third".into(),
        need_line: false,
        need_area: true,
    };
    let err = clip_path_batch(ClipPathBatchArgs {
        clip_region: open_clip,
        bodies: vec![good(), bad_second, bad_third],
        mode: "include".into(),
        clip_fill_rule: "non-zero".into(),
        eps: None,
    })
    .unwrap_err();
    assert!(matches!(err, PathOpsErr::InvalidFillRule(ref f) if f == "second"));
}

#[test]
fn outputs_hold_what_was_asked() {
    let clip = rect_wire((0.0, 0.0), (1.0, 1.0));
    let body = rect_wire((0.25, 0.25), (1.25, 1.25));
    let out = clip_path_batch(ClipPathBatchArgs {
        clip_region: clip,
        bodies: vec![
            batch_body(body.clone(), true, true),
            batch_body(body.clone(), false, false),
            batch_body(body, true, false),
        ],
        mode: "include".into(),
        clip_fill_rule: "non-zero".into(),
        eps: Some(1e-6),
    })
    .unwrap();
    assert_eq!(out.outputs.len(), 3);
    assert!(out.outputs[0].line_path.is_some() && out.outputs[0].area_path.is_some());
    assert!(out.outputs[1].line_path.is_none() && out.outputs[1].area_path.is_none());
    assert!(out.outputs[2].line_path.is_some() && out.outputs[2].area_path.is_none());
}

#[test]
fn area_with_empty_clip_region() {
    let mut body = rect_wire((0.0, 0.0), (1.0, 1.0));
    body.subpaths.push(line_wire((5.0, 5.0), (6.0, 6.0)).subpaths.remove(0));
    let never = |_: &Wire, _: &Wire, _: BooleanParams<f64>| -> Result<Wire, PathOpsErr> {
        panic!("no boolean operation against an empty clip region")
    };
    let kept_in = area_clip(&WirePath::empty(), &body, ClipMode::Include, FillRule::NonZero, FillRule::NonZero, 1e-6, &never)
        .unwrap();
    assert!(kept_in.subpaths.is_empty());
    let kept_out = area_clip(&WirePath::empty(), &body, ClipMode::Exclude, FillRule::NonZero, FillRule::NonZero, 1e-6, &never)
        .unwrap();
    assert_eq!(kept_out, rect_wire((0.0, 0.0), (1.0, 1.0)));
}

#[test]
fn area_of_open_body_is_empty() {
    let never = |_: &Wire, _: &Wire, _: BooleanParams<f64>| -> Result<Wire, PathOpsErr> {
        panic!("an open body bounds no area")
    };
    let out = area_clip(
        &rect_wire((0.0, 0.0), (1.0, 1.0)),
        &line_wire((-1.0, 0.5), (2.0, 0.5)),
        ClipMode::Exclude,
        FillRule::NonZero,
        FillRule::NonZero,
        1e-6,
        &never,
    )
    .unwrap();
    assert!(out.subpaths.is_empty());
}

#[test]
fn area_passes_only_closed_subpaths_to_the_kernel() {
    let mut body = rect_wire((0.0, 0.0), (1.0, 1.0));
    body.subpaths.insert(0, line_wire((5.0, 5.0), (6.0, 6.0)).subpaths.remove(0));
    let seen = std::cell::RefCell::new(None);
    let kernel = |a: &Wire, _: &Wire, p: BooleanParams<f64>| -> Result<Wire, PathOpsErr> {
        *seen.borrow_mut() = Some((a.clone(), p.op, p.fill_rule_a, p.fill_rule_b));
        Ok(WirePath::empty())
    };
    area_clip(&rect_wire((0.0, 0.0), (2.0, 2.0)), &body, ClipMode::Exclude, FillRule::NonZero, FillRule::EvenOdd, 1e-6, &kernel)
        .unwrap();
    let (passed, op, body_rule, clip_rule) = seen.borrow().clone().unwrap();
    assert_eq!(passed, rect_wire((0.0, 0.0), (1.0, 1.0)));
    assert_eq!(op, BoolOp::Difference);
    assert_eq!(body_rule, FillRule::EvenOdd);
    assert_eq!(clip_rule, FillRule::NonZero);
}

#[test]
fn line_is_prepared_once_per_batch() {
    let count = std::cell::Cell::new(0usize);
    let prepare = |clip: &Wire, p: LineClipParams<f64>| {
        count.set(count.get() + 1);
        PreparedLineClip::prepare(clip, p)
    };
    let kernels = ClipKernels { auto_eps, boolean: boolean_kernel, prepare_line: prepare, clip_line };
    let clip = rect_wire((0.0, 0.0), (1.0, 1.0));
    let out = cetz_core::clip_path_batch(
        ClipPathBatchArgs {
            clip_region: clip.clone(),
            bodies: vec![
                batch_body(line_wire((-1.0, 0.5), (2.0, 0.5)), true, false),
                batch_body(line_wire((-1.0, 0.25), (2.0, 0.25)), true, false),
            ],
            mode: "include".into(),
            clip_fill_rule: "non-zero".into(),
            eps: Some(1e-6),
        },
        &kernels,
    )
    .unwrap();
    assert_eq!(out.outputs.len(), 2);
    assert_eq!(count.get(), 1);
    let out = cetz_core::clip_path_batch(
        ClipPathBatchArgs {
            clip_region: clip,
            bodies: vec![batch_body(rect_wire((0.5, 0.5), (2.0, 2.0)), false, true)],
            mode: "include".into(),
            clip_fill_rule: "non-zero".into(),
            eps: Some(1e-6),
        },
        &kernels,
    )
    .unwrap();
    assert!(out.outputs[0].area_path.is_some());
    assert_eq!(count.get(), 1);
}

#[test]
fn keeps_piece_decisions() {
    assert!(keeps_piece(ClipMode::Include, FillRule::NonZero, true, 0));
    assert!(!keeps_piece(ClipMode::Exclude, FillRule::NonZero, true, 1));
    assert!(keeps_piece(ClipMode::Include, FillRule::NonZero, false, 2));
    assert!(!keeps_piece(ClipMode::Include, FillRule::EvenOdd, false, 2));
    assert!(keeps_piece(ClipMode::Exclude, FillRule::EvenOdd, false, -2));
    assert!(!keeps_piece(ClipMode::Exclude, FillRule::NonZero, false, -1));
}
