//! Decoding of raw detector output into boxes, and overlap suppression.

use vstd::prelude::*;
use vstd::string::StringExecFns;
use crate::imaging::{
    planar, planar_samples, resize_triangle, triangle_resized, Image, PixelFormat,
};
use crate::geometry::{
    intersection_area, lemma_intersection_bounds, union_area, BoundingBox, Iou, AREA_LIMIT,
};
use crate::suppression::{
    insertion_index, is_kept, kept_prefix, lemma_retained_is_given, lemma_sort_keeps,
    non_max_suppressed, sort_by_confidence, survives,
};

verus! {

/// Least confidence, exclusive, that a candidate needs to be decoded.
pub const CONFIDENCE_THRESHOLD: u32 = 500_000;

/// Overlap ratio above which the weaker of two boxes is dropped.
pub const IOU_THRESHOLD: u32 = 500_000;

/// Height of the image the model reads.
pub const INPUT_HEIGHT: u32 = 640;

/// Width of the image the model reads.
pub const INPUT_WIDTH: u32 = 640;

/// Values that make up one candidate: centre, size and confidence.
pub const ROW_WIDTH: usize = 5;

/// Why the detector could not produce boxes.
#[derive(Debug)]
pub enum DetectorError {
    ModelLoadError(String),
    ImageProcessError(String),
    InferenceError(String),
}

/// The detector's view of a loaded model: the names of the tensors it feeds and reads.
#[derive(Debug)]
pub struct LicensePlateDetector {
    pub input_name: String,
    pub output_name: String,
}

/// What a loaded model tells of itself: the names of its inputs and outputs.
#[derive(Debug)]
pub struct ModelInfo {
    pub input_names: Vec<String>,
    pub output_names: Vec<String>,
}

/// What the inference engine returned: the extent of each dimension and the
/// values in row-major order. Coordinates are counted in coordinate units,
/// confidences in parts per million.
#[derive(Debug)]
pub struct RawOutput {
    pub shape: Vec<usize>,
    pub values: Vec<i32>,
}

impl RawOutput {
    /// Two dimensions, five columns, and as many values as the shape announces.
    pub open spec fn well_shaped(&self) -> bool {
        &&& self.shape@.len() == 2
        &&& self.shape@[1] == ROW_WIDTH
        &&& self.values@.len() == self.shape@[0] * ROW_WIDTH
    }
}

impl DetectorError {
    /// The error in words.
    pub open spec fn describe(self) -> Seq<char> {
        match self {
            DetectorError::ModelLoadError(m) => "Failed to load YOLO model: "@ + m@,
            DetectorError::ImageProcessError(m) => "Failed to process image: "@ + m@,
            DetectorError::InferenceError(m) => "Inference error: "@ + m@,
        }
    }

    /// The error in words.
    pub fn message(&self) -> (r: String)
        ensures
            r@ == self.describe(),
    {
        match self {
            DetectorError::ModelLoadError(m) => String::from_str(
                "Failed to load YOLO model: ",
            ).concat(m.as_str()),
            DetectorError::ImageProcessError(m) => String::from_str(
                "Failed to process image: ",
            ).concat(m.as_str()),
            DetectorError::InferenceError(m) => String::from_str("Inference error: ").concat(
                m.as_str(),
            ),
        }
    }
}

/// The boxes that a well-shaped output stands for.
pub open spec fn detections(output: RawOutput) -> Seq<BoundingBox> {
    non_max_suppressed(decoded(output.values@, output.shape@[0] as int), IOU_THRESHOLD as int)
}

/// The frame can be turned into a tensor: its data matches its dimensions,
/// it is a colour image with at least one pixel, and the resize buffers fit memory.
pub open spec fn is_usable_frame(image: Image) -> bool {
    &&& image.well_formed()
    &&& !image.is_empty()
    &&& image.format == PixelFormat::Rgb
    &&& 4 * INPUT_HEIGHT * image.width <= usize::MAX
}

/// The samples of the model's input for a frame: the frame brought to the
/// input size with the triangle filter, laid out in colour planes.
pub open spec fn input_samples(image: Image) -> Seq<u8> {
    planar(
        triangle_resized(
            image.pixels@,
            image.width as int,
            image.height as int,
            INPUT_WIDTH as int,
            INPUT_HEIGHT as int,
        ),
        INPUT_HEIGHT * INPUT_WIDTH,
    )
}

/// Why a frame cannot be turned into a tensor.
pub open spec fn frame_rejection(image: Image) -> Seq<char> {
    if !image.well_formed() {
        "Image data does not match its dimensions"@
    } else if image.is_empty() {
        "Image is empty"@
    } else if image.format != PixelFormat::Rgb {
        "Image is not a colour image"@
    } else {
        "Image is too large"@
    }
}

/// Half of `w`, rounded towards zero.
pub open spec fn half(w: int) -> int {
    if w >= 0 {
        w / 2
    } else {
        -((-w) / 2)
    }
}

/// Candidate `i` clears the confidence threshold.
pub open spec fn is_confident(values: Seq<i32>, i: int) -> bool {
    values[ROW_WIDTH * i + 4] > CONFIDENCE_THRESHOLD
}

/// Candidate `i` in corner form.
pub open spec fn decode_row(values: Seq<i32>, i: int) -> BoundingBox {
    let center_x = values[ROW_WIDTH * i] as int;
    let center_y = values[ROW_WIDTH * i + 1] as int;
    let width = values[ROW_WIDTH * i + 2] as int;
    let height = values[ROW_WIDTH * i + 3] as int;
    BoundingBox {
        x_min: (center_x - half(width)) as i64,
        y_min: (center_y - half(height)) as i64,
        x_max: (center_x + half(width)) as i64,
        y_max: (center_y + half(height)) as i64,
        confidence: values[ROW_WIDTH * i + 4] as u32,
    }
}

/// The confident candidates among the first `n`, decoded, in the order of the rows.
pub open spec fn decoded(values: Seq<i32>, n: int) -> Seq<BoundingBox>
    decreases n,
{
    if n <= 0 {
        Seq::empty()
    } else if is_confident(values, n - 1) {
        decoded(values, n - 1).push(decode_row(values, n - 1))
    } else {
        decoded(values, n - 1)
    }
}

/// A decoded box has its corners in order unless the row's width or height is negative.
pub proof fn lemma_decoded_row_ordered(values: Seq<i32>, i: int)
    requires
        values[ROW_WIDTH * i + 2] >= 0,
        values[ROW_WIDTH * i + 3] >= 0,
    ensures
        decode_row(values, i).is_ordered(),
        decode_row(values, i).in_range(),
{
}

/// Every decoded box is more confident than the threshold, lies within the
/// coordinate limit, and stems from a row of the output.
pub proof fn lemma_decoded_boxes(values: Seq<i32>, n: int, k: int) -> (i: int)
    requires
        0 <= n,
        ROW_WIDTH * n <= values.len(),
        0 <= k < decoded(values, n).len(),
    ensures
        0 <= i < n,
        is_confident(values, i),
        decoded(values, n)[k] == decode_row(values, i),
        decoded(values, n)[k].confidence > CONFIDENCE_THRESHOLD,
        decoded(values, n)[k].in_range(),
    decreases n,
{
    if is_confident(values, n - 1) && k == decoded(values, n - 1).len() {
        n - 1
    } else {
        lemma_decoded_boxes(values, n - 1, k)
    }
}

/// The boxes of an output whose confident rows have no negative width or
/// height all have their corners in order.
pub proof fn lemma_detections_ordered(output: RawOutput, k: int)
    requires
        output.well_shaped(),
        forall|i: int|
            0 <= i < output.shape@[0] && is_confident(output.values@, i) ==> output.values@[ROW_WIDTH
                * i + 2] >= 0 && output.values@[ROW_WIDTH * i + 3] >= 0,
        0 <= k < detections(output).len(),
    ensures
        detections(output)[k].is_ordered(),
        detections(output)[k].confidence > CONFIDENCE_THRESHOLD,
{
    let rows = output.shape@[0] as int;
    let given = decoded(output.values@, rows);
    lemma_retained_is_given(given, IOU_THRESHOLD as int, k);
    let b = detections(output)[k];
    let at = choose|at: int| 0 <= at < given.len() && given[at] == b;
    let i = lemma_decoded_boxes(output.values@, rows, at);
    lemma_decoded_row_ordered(output.values@, i);
}

fn halve(w: i32) -> (r: i64)
    ensures
        r == half(w as int),
{
    let wide: i64 = w as i64;
    if wide >= 0 {
        wide / 2
    } else {
        -((-wide) / 2)
    }
}

fn box_area(b: &BoundingBox) -> (r: u128)
    requires
        b.in_range(),
    ensures
        r == b.area(),
        r <= AREA_LIMIT / 2,
{
    if b.x_min <= b.x_max && b.y_min <= b.y_max {
        let w: u128 = (b.x_max - b.x_min) as u128;
        let h: u128 = (b.y_max - b.y_min) as u128;
        assert(w * h <= 0x2_0000_0000 * 0x2_0000_0000) by (nonlinear_arith)
            requires
                w <= 0x2_0000_0000,
                h <= 0x2_0000_0000,
        ;
        w * h
    } else {
        0
    }
}

/// Orders the boxes by descending confidence, equal confidences staying in place.
fn sort_boxes(boxes: &Vec<BoundingBox>) -> (sorted: Vec<BoundingBox>)
    ensures
        sorted@ == sort_by_confidence(boxes@),
{
    let n: usize = boxes.len();
    let mut sorted: Vec<BoundingBox> = Vec::new();
    let mut i: usize = 0;
    while i < n
        invariant
            n == boxes.len(),
            i <= n,
            sorted@ == sort_by_confidence(boxes@.take(i as int)),
        decreases n - i,
    {
        let b: BoundingBox = boxes[i];
        let mut j: usize = sorted.len();
        assert(sorted@.take(j as int) == sorted@);
        while j > 0 && sorted[j - 1].confidence < b.confidence
            invariant
                j <= sorted.len(),
                insertion_index(sorted@, b) == insertion_index(sorted@.take(j as int), b),
            decreases j,
        {
            assert(sorted@.take(j as int).drop_last() == sorted@.take(j - 1));
            j = j - 1;
        }
        proof {
            assert(boxes@.take(i + 1).drop_last() == boxes@.take(i as int));
        }
        sorted.insert(j, b);
        i = i + 1;
    }
    proof {
        assert(boxes@.take(n as int) == boxes@);
    }
    sorted
}

impl LicensePlateDetector {
    /// The detector for a model that was loaded: it feeds the model's first
    /// input and reads its first output. A model that could not be loaded, or
    /// that has no input or no output, gives a `ModelLoadError`.
    pub fn new(model: Result<ModelInfo, String>) -> (r: Result<LicensePlateDetector, DetectorError>)
        ensures
            model matches Err(cause) ==> (r matches Err(DetectorError::ModelLoadError(m)) && m@
                == cause@),
            model matches Ok(info) ==> {
                if info.input_names@.len() == 0 {
                    r matches Err(DetectorError::ModelLoadError(m)) && m@
                        == "Failed to get input name"@
                } else if info.output_names@.len() == 0 {
                    r matches Err(DetectorError::ModelLoadError(m)) && m@
                        == "Failed to get output name"@
                } else {
                    r matches Ok(detector) && detector.input_name@ == info.input_names@[0]@
                        && detector.output_name@ == info.output_names@[0]@
                }
            },
    {
        match model {
            Err(cause) => Err(DetectorError::ModelLoadError(cause)),
            Ok(info) => {
                if info.input_names.len() == 0 {
                    return Err(
                        DetectorError::ModelLoadError(String::from_str("Failed to get input name")),
                    );
                }
                if info.output_names.len() == 0 {
                    return Err(
                        DetectorError::ModelLoadError(String::from_str("Failed to get output name")),
                    );
                }
                Ok(
                    LicensePlateDetector {
                        input_name: info.input_names[0].clone(),
                        output_name: info.output_names[0].clone(),
                    },
                )
            },
        }
    }

    /// The boxes of a frame, from what the inference engine made of it: an
    /// engine failure becomes an `InferenceError`, an output is post-processed.
    pub fn detect_license_plate(&self, inference: Result<RawOutput, String>) -> (r: Result<
        Vec<BoundingBox>,
        DetectorError,
    >)
        ensures
            inference matches Err(cause) ==> (r matches Err(DetectorError::InferenceError(m))
                && m@ == cause@),
            inference matches Ok(output) ==> {
                if output.well_shaped() {
                    r matches Ok(boxes) && boxes@ == detections(output)
                } else {
                    r matches Err(DetectorError::InferenceError(m)) && m@
                        == "Unexpected output shape"@
                }
            },
    {
        match inference {
            Err(cause) => Err(DetectorError::InferenceError(cause)),
            Ok(output) => self.postprocess_output(&output),
        }
    }

    /// Turns a frame into the samples of the model's input: the frame is
    /// resized to exactly the input size, without regard to its aspect ratio,
    /// and its samples are laid out in colour planes. A sample `s` stands for
    /// the tensor value `s / 255`.
    pub fn preprocess_image(&self, image: &Image) -> (r: Result<Vec<u8>, DetectorError>)
        ensures
            r is Ok <==> is_usable_frame(*image),
            r matches Ok(tensor) ==> tensor@ == input_samples(*image) && tensor@.len() == 3
                * INPUT_HEIGHT * INPUT_WIDTH,
            r matches Err(e) ==> (e matches DetectorError::ImageProcessError(m) && m@
                == frame_rejection(*image)),
    {
        if !image.is_well_formed() {
            return Err(
                DetectorError::ImageProcessError(
                    String::from_str("Image data does not match its dimensions"),
                ),
            );
        }
        if image.width == 0 || image.height == 0 {
            return Err(DetectorError::ImageProcessError(String::from_str("Image is empty")));
        }
        match image.format {
            PixelFormat::Gray => {
                return Err(
                    DetectorError::ImageProcessError(
                        String::from_str("Image is not a colour image"),
                    ),
                );
            },
            PixelFormat::Rgb => {},
        }
        if 2560 * (image.width as u128) > (usize::MAX as u128) {
            return Err(DetectorError::ImageProcessError(String::from_str("Image is too large")));
        }
        assert(u32::MAX <= usize::MAX);
        let resized: Image = resize_triangle(image, INPUT_WIDTH, INPUT_HEIGHT);
        let tensor: Vec<u8> = planar_samples(&resized);
        assert(resized.pixels@.len() == 3 * INPUT_HEIGHT * INPUT_WIDTH);
        Ok(tensor)
    }

    /// Turns the engine's output into boxes: rejects a malformed shape, keeps
    /// the candidates above the confidence threshold in corner form, and
    /// suppresses those that overlap a more confident one.
    pub fn postprocess_output(&self, output: &RawOutput) -> (r: Result<
        Vec<BoundingBox>,
        DetectorError,
    >)
        ensures
            output.well_shaped() ==> (r matches Ok(boxes) && boxes@ == detections(*output)),
            !output.well_shaped() ==> (r matches Err(DetectorError::InferenceError(message))
                && message@ == "Unexpected output shape"@),
    {
        if output.shape.len() != 2 || output.shape[1] != ROW_WIDTH {
            return Err(DetectorError::InferenceError("Unexpected output shape".to_string()));
        }
        let rows: usize = output.shape[0];
        if output.values.len() % ROW_WIDTH != 0 || output.values.len() / ROW_WIDTH != rows {
            return Err(DetectorError::InferenceError("Unexpected output shape".to_string()));
        }
        let mut boxes: Vec<BoundingBox> = Vec::new();
        let mut i: usize = 0;
        while i < rows
            invariant
                i <= rows,
                output.values@.len() == rows * ROW_WIDTH,
                rows * ROW_WIDTH <= usize::MAX,
                boxes@ == decoded(output.values@, i as int),
                forall|k: int| 0 <= k < boxes.len() ==> (#[trigger] boxes[k]).in_range(),
            decreases rows - i,
        {
            assert(i * ROW_WIDTH + ROW_WIDTH <= rows * ROW_WIDTH) by (nonlinear_arith)
                requires
                    i < rows,
            ;
            let at: usize = i * ROW_WIDTH;
            let confidence: i32 = output.values[at + 4];
            if confidence > 0 && confidence as u32 > CONFIDENCE_THRESHOLD {
                let x_center: i64 = output.values[at] as i64;
                let y_center: i64 = output.values[at + 1] as i64;
                let half_width: i64 = halve(output.values[at + 2]);
                let half_height: i64 = halve(output.values[at + 3]);
                boxes.push(
                    BoundingBox {
                        x_min: x_center - half_width,
                        y_min: y_center - half_height,
                        x_max: x_center + half_width,
                        y_max: y_center + half_height,
                        confidence: confidence as u32,
                    },
                );
            }
            i = i + 1;
        }
        Ok(self.non_max_suppression(boxes, IOU_THRESHOLD))
    }

    /// Greedy non-max suppression: the boxes are ordered by descending
    /// confidence, ties in the order given, and each box that a retained box
    /// before it overlaps beyond `iou_threshold` is dropped.
    pub fn non_max_suppression(&self, boxes: Vec<BoundingBox>, iou_threshold: u32) -> (r: Vec<
        BoundingBox,
    >)
        requires
            forall|i: int| 0 <= i < boxes.len() ==> (#[trigger] boxes[i]).in_range(),
        ensures
            r@ == non_max_suppressed(boxes@, iou_threshold as int),
    {
        let sorted: Vec<BoundingBox> = sort_boxes(&boxes);
        let ghost s = sorted@;
        let ghost t = iou_threshold as int;
        proof {
            lemma_sort_keeps(boxes@, |b: BoundingBox| b.in_range());
        }
        let n: usize = sorted.len();
        let mut keep: Vec<bool> = Vec::new();
        let mut k: usize = 0;
        while k < n
            invariant
                k <= n,
                keep.len() == k,
                forall|j: int| 0 <= j < k ==> keep[j],
            decreases n - k,
        {
            keep.push(true);
            k = k + 1;
        }
        let mut i: usize = 0;
        while i < n
            invariant
                i <= n,
                n == sorted.len(),
                s == sorted@,
                t == iou_threshold as int,
                keep.len() == n,
                forall|j: int| 0 <= j < n ==> (#[trigger] s[j]).in_range(),
                forall|j: int| 0 <= j < n ==> keep[j] == survives(s, t, j, i as int),
            decreases n - i,
        {
            if keep[i] {
                let mut j: usize = i + 1;
                while j < n
                    invariant
                        i < j <= n,
                        n == sorted.len(),
                        s == sorted@,
                        t == iou_threshold as int,
                        keep.len() == n,
                        is_kept(s, t, i as int),
                        forall|j: int| 0 <= j < n ==> (#[trigger] s[j]).in_range(),
                        forall|m: int| 0 <= m <= i ==> keep[m] == survives(s, t, m, i as int),
                        forall|m: int| i < m < j ==> keep[m] == survives(s, t, m, i + 1),
                        forall|m: int| j <= m < n ==> keep[m] == survives(s, t, m, i as int),
                    decreases n - j,
                {
                    if keep[j] {
                        let overlap: Iou = self.calculate_iou(&sorted[i], &sorted[j]);
                        if overlap.exceeds(iou_threshold) {
                            keep.set(j, false);
                        }
                    }
                    j = j + 1;
                }
            }
            i = i + 1;
        }
        let mut retained: Vec<BoundingBox> = Vec::new();
        let mut i: usize = 0;
        while i < n
            invariant
                i <= n,
                n == sorted.len(),
                s == sorted@,
                keep.len() == n,
                forall|j: int| 0 <= j < n ==> keep[j] == is_kept(s, t, j),
                retained@ == kept_prefix(s, t, i as int),
            decreases n - i,
        {
            if keep[i] {
                retained.push(sorted[i]);
            }
            i = i + 1;
        }
        retained
    }

    /// Intersection over union of two boxes, as an exact fraction.
    pub fn calculate_iou(&self, box1: &BoundingBox, box2: &BoundingBox) -> (r: Iou)
        requires
            box1.in_range(),
            box2.in_range(),
        ensures
            r.intersection == intersection_area(*box1, *box2),
            r.union == union_area(*box1, *box2),
            r.is_bounded(),
    {
        let x_left: i64 = if box1.x_min >= box2.x_min { box1.x_min } else { box2.x_min };
        let y_top: i64 = if box1.y_min >= box2.y_min { box1.y_min } else { box2.y_min };
        let x_right: i64 = if box1.x_max <= box2.x_max { box1.x_max } else { box2.x_max };
        let y_bottom: i64 = if box1.y_max <= box2.y_max { box1.y_max } else { box2.y_max };
        let box1_area: u128 = box_area(box1);
        let box2_area: u128 = box_area(box2);
        proof {
            lemma_intersection_bounds(*box1, *box2);
        }
        if x_right < x_left || y_bottom < y_top {
            return Iou { intersection: 0, union: box1_area + box2_area };
        }
        let w: u128 = (x_right - x_left) as u128;
        let h: u128 = (y_bottom - y_top) as u128;
        assert(w * h == intersection_area(*box1, *box2));
        let common: u128 = w * h;
        Iou { intersection: common, union: box1_area + box2_area - common }
    }
}

} // verus!
