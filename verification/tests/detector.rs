use plate_sentry::detector::{
    DetectorError, LicensePlateDetector, ModelInfo, RawOutput, CONFIDENCE_THRESHOLD, INPUT_HEIGHT,
    INPUT_WIDTH, IOU_THRESHOLD,
};
use plate_sentry::geometry::{BoundingBox, Iou};
use plate_sentry::imaging::{Image, PixelFormat};

fn detector() -> LicensePlateDetector {
    let model = ModelInfo {
        input_names: vec!["images".to_string()],
        output_names: vec!["output0".to_string(), "aux".to_string()],
    };
    LicensePlateDetector::new(Ok(model)).unwrap()
}

fn boxed(x_min: i64, y_min: i64, x_max: i64, y_max: i64, confidence: u32) -> BoundingBox {
    BoundingBox { x_min, y_min, x_max, y_max, confidence }
}

fn output(rows: &[[i32; 5]]) -> RawOutput {
    let mut values = Vec::new();
    for row in rows {
        values.extend_from_slice(row);
    }
    RawOutput { shape: vec![rows.len(), 5], values }
}

#[test]
fn test_detector_initialization() {
    let d = detector();
    assert_eq!(d.input_name, "images");
    assert_eq!(d.output_name, "output0");
}

#[test]
fn detector_needs_a_loaded_model() {
    match LicensePlateDetector::new(Err("no such file".to_string())) {
        Err(DetectorError::ModelLoadError(m)) => assert_eq!(m, "no such file"),
        _ => panic!("expected a model load error"),
    }
}

#[test]
fn detector_needs_input_and_output_names() {
    let no_input = ModelInfo { input_names: vec![], output_names: vec!["o".to_string()] };
    match LicensePlateDetector::new(Ok(no_input)) {
        Err(DetectorError::ModelLoadError(m)) => assert_eq!(m, "Failed to get input name"),
        _ => panic!("expected a model load error"),
    }
    let no_output = ModelInfo { input_names: vec!["i".to_string()], output_names: vec![] };
    match LicensePlateDetector::new(Ok(no_output)) {
        Err(DetectorError::ModelLoadError(m)) => assert_eq!(m, "Failed to get output name"),
        _ => panic!("expected a model load error"),
    }
}

#[test]
fn detector_error_messages() {
    assert_eq!(
        DetectorError::ModelLoadError("x".to_string()).message(),
        "Failed to load YOLO model: x"
    );
    assert_eq!(
        DetectorError::ImageProcessError("y".to_string()).message(),
        "Failed to process image: y"
    );
    assert_eq!(DetectorError::InferenceError("z".to_string()).message(), "Inference error: z");
}

#[test]
fn thresholds_are_one_half() {
    assert_eq!(CONFIDENCE_THRESHOLD, 500_000);
    assert_eq!(IOU_THRESHOLD, 500_000);
}

#[test]
fn iou_of_a_box_with_itself_is_one() {
    let d = detector();
    let b = boxed(10_000, 20_000, 110_000, 70_000, 900_000);
    let iou = d.calculate_iou(&b, &b);
    assert_eq!(iou.intersection, iou.union);
    assert_eq!(iou.intersection, 100_000u128 * 50_000u128);
    assert_eq!(iou.ppm(), 1_000_000);
}

#[test]
fn iou_of_disjoint_boxes_is_zero() {
    let d = detector();
    let a = boxed(0, 0, 10_000, 10_000, 900_000);
    let b = boxed(20_000, 20_000, 30_000, 30_000, 800_000);
    let iou = d.calculate_iou(&a, &b);
    assert_eq!(iou.intersection, 0);
    assert_eq!(iou.union, 200_000_000);
    assert_eq!(iou.ppm(), 0);
    assert!(!iou.exceeds(0));
}

#[test]
fn iou_of_half_covering_boxes() {
    let d = detector();
    let a = boxed(0, 0, 100, 100, 900_000);
    let b = boxed(50, 0, 150, 100, 800_000);
    let iou = d.calculate_iou(&a, &b);
    assert_eq!(iou, Iou { intersection: 5_000, union: 15_000 });
    assert_eq!(iou.ppm(), 333_333);
    assert!(iou.exceeds(333_333));
    assert!(!iou.exceeds(333_334));
    assert_eq!(d.calculate_iou(&b, &a), iou);
}

#[test]
fn iou_of_boxes_that_touch_is_zero() {
    let d = detector();
    let a = boxed(0, 0, 100, 100, 900_000);
    let b = boxed(100, 0, 200, 100, 800_000);
    let iou = d.calculate_iou(&a, &b);
    assert_eq!(iou, Iou { intersection: 0, union: 20_000 });
}

#[test]
fn iou_of_empty_boxes_exceeds_nothing() {
    let d = detector();
    let a = boxed(5, 5, 5, 5, 900_000);
    let iou = d.calculate_iou(&a, &a);
    assert_eq!(iou, Iou { intersection: 0, union: 0 });
    assert_eq!(iou.ppm(), 0);
    assert!(!iou.exceeds(0));
}

#[test]
fn iou_at_the_coordinate_limit() {
    let d = detector();
    let limit: i64 = 0x1_0000_0000;
    let a = boxed(-limit, -limit, limit, limit, 900_000);
    let iou = d.calculate_iou(&a, &a);
    assert_eq!(iou.intersection, 0x4_0000_0000_0000_0000u128);
    assert_eq!(iou.ppm(), 1_000_000);
    assert!(iou.exceeds(999_999));
}

#[test]
fn iou_exactly_at_the_threshold_does_not_exceed_it() {
    let d = detector();
    let a = boxed(0, 0, 100, 100, 900_000);
    let b = boxed(0, 0, 100, 50, 800_000);
    let iou = d.calculate_iou(&a, &b);
    assert_eq!(iou.ppm(), 500_000);
    assert!(!iou.exceeds(IOU_THRESHOLD));
}

#[test]
fn suppression_keeps_the_stronger_of_two_overlapping_boxes() {
    let d = detector();
    let strong = boxed(0, 0, 100_000, 100_000, 900_000);
    let weak = boxed(0, 0, 100_000, 90_000, 600_000);
    assert_eq!(d.calculate_iou(&strong, &weak).ppm(), 900_000);
    let kept = d.non_max_suppression(vec![weak, strong], IOU_THRESHOLD);
    assert_eq!(kept, vec![strong]);
}

#[test]
fn suppression_keeps_boxes_at_the_threshold() {
    let d = detector();
    let a = boxed(0, 0, 100, 100, 900_000);
    let b = boxed(0, 0, 100, 50, 800_000);
    let kept = d.non_max_suppression(vec![a, b], IOU_THRESHOLD);
    assert_eq!(kept, vec![a, b]);
}

#[test]
fn suppression_orders_by_confidence_and_keeps_ties_in_place() {
    let d = detector();
    let a = boxed(0, 0, 10, 10, 700_000);
    let b = boxed(100, 0, 110, 10, 900_000);
    let c = boxed(200, 0, 210, 10, 700_000);
    let e = boxed(300, 0, 310, 10, 800_000);
    let kept = d.non_max_suppression(vec![a, b, c, e], IOU_THRESHOLD);
    assert_eq!(kept, vec![b, e, a, c]);
}

#[test]
fn suppression_is_greedy() {
    let d = detector();
    // b is suppressed by a, so it cannot suppress c, which overlaps b but not a.
    let a = boxed(0, 0, 100, 100, 900_000);
    let b = boxed(40, 0, 140, 100, 800_000);
    let c = boxed(80, 0, 180, 100, 700_000);
    assert!(!d.calculate_iou(&a, &b).exceeds(IOU_THRESHOLD));
    let a = boxed(0, 0, 100, 100, 900_000);
    let b = boxed(20, 0, 120, 100, 800_000);
    let c = boxed(50, 0, 150, 100, 700_000);
    assert!(d.calculate_iou(&a, &b).exceeds(IOU_THRESHOLD));
    assert!(d.calculate_iou(&b, &c).exceeds(IOU_THRESHOLD));
    assert!(!d.calculate_iou(&a, &c).exceeds(IOU_THRESHOLD));
    let kept = d.non_max_suppression(vec![c, b, a], IOU_THRESHOLD);
    assert_eq!(kept, vec![a, c]);
}

#[test]
fn suppression_retains_boxes_that_are_apart_and_sorted() {
    let d = detector();
    let mut boxes = Vec::new();
    for i in 0..12i64 {
        let x = (i * 37) % 200;
        let y = (i * 53) % 120;
        boxes.push(boxed(x, y, x + 60, y + 40, 500_001 + ((i * 7919) % 400_000) as u32));
    }
    let kept = d.non_max_suppression(boxes.clone(), IOU_THRESHOLD);
    assert!(!kept.is_empty());
    for i in 0..kept.len() {
        assert!(boxes.contains(&kept[i]));
        for j in (i + 1)..kept.len() {
            assert!(kept[i].confidence >= kept[j].confidence);
            let iou = d.calculate_iou(&kept[i], &kept[j]);
            assert!(2 * iou.intersection <= iou.union);
            assert!(!iou.exceeds(IOU_THRESHOLD));
        }
    }
}

#[test]
fn suppression_of_nothing_is_nothing() {
    let d = detector();
    assert_eq!(d.non_max_suppression(vec![], IOU_THRESHOLD), vec![]);
}

#[test]
fn decoding_turns_centre_form_into_corner_form() {
    let d = detector();
    let out = output(&[[100_000, 50_000, 40_000, 20_000, 900_000]]);
    let boxes = d.postprocess_output(&out).unwrap();
    assert_eq!(boxes, vec![boxed(80_000, 40_000, 120_000, 60_000, 900_000)]);
    assert!(boxes[0].x_min <= boxes[0].x_max && boxes[0].y_min <= boxes[0].y_max);
}

#[test]
fn decoding_halves_towards_zero() {
    let d = detector();
    let out = output(&[[10, 10, 5, 3, 900_000], [10, 100, -5, -3, 800_000]]);
    let boxes = d.postprocess_output(&out).unwrap();
    assert_eq!(boxes, vec![boxed(8, 9, 12, 11, 900_000), boxed(12, 101, 8, 99, 800_000)]);
}

#[test]
fn decoding_drops_candidates_at_or_below_the_threshold() {
    let d = detector();
    let out = output(&[
        [100, 100, 20, 20, 500_000],
        [300, 100, 20, 20, 500_001],
        [500, 100, 20, 20, 0],
        [700, 100, 20, 20, -5],
    ]);
    let boxes = d.postprocess_output(&out).unwrap();
    assert_eq!(boxes, vec![boxed(290, 90, 310, 110, 500_001)]);
}

#[test]
fn decoding_survives_extreme_values() {
    let d = detector();
    let out = output(&[[i32::MAX, i32::MIN, i32::MAX, i32::MIN, i32::MAX]]);
    let boxes = d.postprocess_output(&out).unwrap();
    assert_eq!(boxes.len(), 1);
    assert_eq!(boxes[0].x_max, i32::MAX as i64 + (i32::MAX / 2) as i64);
    assert_eq!(boxes[0].y_min, i32::MIN as i64 + (1i64 << 30));
    assert_eq!(boxes[0].confidence, i32::MAX as u32);
}

#[test]
fn test_license_plate_detection() {
    let d = detector();
    let out = output(&[
        [50_000, 50_000, 100_000, 90_000, 600_000],
        [50_000, 50_000, 100_000, 100_000, 900_000],
        [400_000, 50_000, 100_000, 100_000, 300_000],
        [800_000, 50_000, 100_000, 100_000, 700_000],
    ]);
    let boxes = d.detect_license_plate(Ok(out)).unwrap();
    assert_eq!(
        boxes,
        vec![
            boxed(0, 0, 100_000, 100_000, 900_000),
            boxed(750_000, 0, 850_000, 100_000, 700_000),
        ]
    );
}

#[test]
fn detection_hands_on_engine_failures() {
    let d = detector();
    match d.detect_license_plate(Err("session closed".to_string())) {
        Err(DetectorError::InferenceError(m)) => assert_eq!(m, "session closed"),
        _ => panic!("expected an inference error"),
    }
}

#[test]
fn malformed_output_shapes_are_rejected() {
    let d = detector();
    let shapes: Vec<(Vec<usize>, usize)> = vec![
        (vec![1, 2, 5], 10),
        (vec![10], 10),
        (vec![2, 4], 8),
        (vec![2, 5], 9),
        (vec![2, 5], 11),
        (vec![2, 5], 15),
        (vec![], 0),
        (vec![usize::MAX, 5], 5),
    ];
    for (shape, len) in shapes {
        let out = RawOutput { shape, values: vec![900_000; len] };
        match d.postprocess_output(&out) {
            Err(DetectorError::InferenceError(m)) => assert_eq!(m, "Unexpected output shape"),
            _ => panic!("expected an inference error"),
        }
    }
    let empty = RawOutput { shape: vec![0, 5], values: vec![] };
    assert_eq!(d.postprocess_output(&empty).unwrap(), vec![]);
}

#[test]
fn frames_become_planar_tensors() {
    let d = detector();
    let mut pixels = Vec::new();
    for _ in 0..(INPUT_WIDTH * INPUT_HEIGHT) {
        pixels.extend_from_slice(&[10u8, 20, 30]);
    }
    let frame =
        Image { width: INPUT_WIDTH, height: INPUT_HEIGHT, format: PixelFormat::Rgb, pixels };
    let tensor = d.preprocess_image(&frame).unwrap();
    let plane = (INPUT_WIDTH * INPUT_HEIGHT) as usize;
    assert_eq!(tensor.len(), 3 * plane);
    assert!(tensor[..plane].iter().all(|&s| s == 10));
    assert!(tensor[plane..2 * plane].iter().all(|&s| s == 20));
    assert!(tensor[2 * plane..].iter().all(|&s| s == 30));
}

#[test]
fn frames_are_resized_to_the_model_input() {
    let d = detector();
    let frame = Image { width: 8, height: 4, format: PixelFormat::Rgb, pixels: vec![200; 96] };
    let tensor = d.preprocess_image(&frame).unwrap();
    assert_eq!(tensor.len(), 3 * 640 * 640);
    assert!(tensor.iter().all(|&s| s == 200));
}

#[test]
fn unusable_frames_are_refused() {
    let d = detector();
    let cases = vec![
        (
            Image { width: 2, height: 2, format: PixelFormat::Rgb, pixels: vec![0; 11] },
            "Image data does not match its dimensions",
        ),
        (Image { width: 0, height: 2, format: PixelFormat::Rgb, pixels: vec![] }, "Image is empty"),
        (Image { width: 2, height: 0, format: PixelFormat::Rgb, pixels: vec![] }, "Image is empty"),
        (
            Image { width: 2, height: 2, format: PixelFormat::Gray, pixels: vec![0; 4] },
            "Image is not a colour image",
        ),
    ];
    for (frame, expected) in cases {
        match d.preprocess_image(&frame) {
            Err(DetectorError::ImageProcessError(m)) => assert_eq!(m, expected),
            _ => panic!("expected an image error"),
        }
    }
}
