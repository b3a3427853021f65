use plate_sentry::detector::{DetectorError, ModelInfo};
use plate_sentry::geometry::BoundingBox;
use plate_sentry::imaging::{Image, PixelFormat, Region};
use plate_sentry::notification::{AccessStatus, NotificationService};
use plate_sentry::ocr::{EngineSetup, OcrError, Recognition};
use plate_sentry::pipeline::{
    crop_plate, crop_region, detection_image_path, needs_alert, save_detection_image, App,
    PlateReading, StartupError, Whitelist,
};

fn model() -> Result<ModelInfo, String> {
    Ok(ModelInfo { input_names: vec!["images".into()], output_names: vec!["output0".into()] })
}

fn app(plates: &[&str]) -> App {
    let plates: Vec<String> = plates.iter().map(|p| p.to_string()).collect();
    App::new(model(), EngineSetup::Ready, NotificationService::new(None, None, None), &plates)
        .unwrap()
}

fn reading(text: &str, mean_confidence: u32, timestamp: i64) -> PlateReading {
    PlateReading {
        outcome: Ok(Recognition { text: text.to_string(), mean_confidence }),
        timestamp,
        image_path: format!("detections/{}.jpg", timestamp),
    }
}

fn boxed(x_min: i64, y_min: i64, x_max: i64, y_max: i64) -> BoundingBox {
    BoundingBox { x_min, y_min, x_max, y_max, confidence: 900_000 }
}

#[test]
fn listed_plates_are_allowed_and_others_suspicious() {
    let app = app(&["ABC123"]);
    assert_eq!(app.access_status("ABC123"), AccessStatus::Allowed);
    assert_eq!(app.access_status("XYZ999"), AccessStatus::Suspicious);
    assert_eq!(app.access_status("abc123"), AccessStatus::Suspicious);
    assert_eq!(app.access_status(""), AccessStatus::Suspicious);
}

#[test]
fn the_whitelist_holds_normal_forms_once() {
    let entries: Vec<String> =
        vec!["ABC123".into(), " abc 123\n".into(), "xy-77".into(), "ABC123".into(), "XY-77".into()];
    let list = Whitelist::load(&entries);
    assert_eq!(list.len(), 2);
    assert_eq!(list.plates, vec!["ABC123".to_string(), "XY-77".to_string()]);
    assert!(list.contains("ABC123"));
    assert!(list.contains("XY-77"));
    assert!(!list.contains("xy-77"));
    assert!(!list.contains("ABC12"));
    let empty = Whitelist::load(&vec![]);
    assert_eq!(empty.len(), 0);
    assert!(!empty.contains("ABC123"));
}

#[test]
fn startup_fails_with_the_first_engine_that_fails() {
    let notifier = || NotificationService::new(None, None, None);
    match App::new(Err("no model".into()), EngineSetup::InitFailed("x".into()), notifier(), &vec![]) {
        Err(StartupError::Detector(DetectorError::ModelLoadError(m))) => assert_eq!(m, "no model"),
        _ => panic!("expected the detector's error"),
    }
    match App::new(model(), EngineSetup::InitFailed("no data".into()), notifier(), &vec![]) {
        Err(StartupError::Ocr(OcrError::TesseractInitError(m))) => {
            assert_eq!(m, "Failed to initialize Tesseract: no data")
        }
        _ => panic!("expected the reader's error"),
    }
    let started = App::new(
        model(),
        EngineSetup::Ready,
        NotificationService::new(Some("l".into()), None, None),
        &vec!["AB-1234".to_string()],
    )
    .unwrap();
    assert_eq!(started.detector.input_name, "images");
    assert_eq!(started.notifier.line_token.as_deref(), Some("l"));
    assert!(started.whitelist.contains("AB-1234"));
}

#[test]
fn a_reading_becomes_an_event() {
    let app = app(&["ABC123"]);
    let event = app.process_detection(&reading(" abc 123\n", 95, 1_700_000_000)).unwrap();
    assert_eq!(event.timestamp, 1_700_000_000);
    assert_eq!(event.plate_number, "ABC123");
    assert_eq!(event.confidence, 950_000);
    assert_eq!(event.image_path, "detections/1700000000.jpg");
    assert_eq!(event.access_status, AccessStatus::Allowed);
    assert!(!needs_alert(&event));
    let other = app.process_detection(&reading("XYZ999", 60, 5)).unwrap();
    assert_eq!(other.access_status, AccessStatus::Suspicious);
    assert!(needs_alert(&other));
}

#[test]
fn unreadable_boxes_give_no_event() {
    let app = app(&["ABC123"]);
    match app.process_detection(&reading("!@#$%^", 95, 0)) {
        Err(OcrError::ValidationError(m)) => {
            assert_eq!(m, "Text '!@#$%^' does not match license plate pattern")
        }
        _ => panic!("expected a validation error"),
    }
    let failed =
        PlateReading { outcome: Err("engine crashed".into()), timestamp: 0, image_path: "p".into() };
    match app.process_detection(&failed) {
        Err(OcrError::ProcessingError(m)) => assert_eq!(m, "engine crashed"),
        _ => panic!("expected a processing error"),
    }
}

#[test]
fn one_bad_box_does_not_stop_the_frame() {
    let app = app(&["ABC123"]);
    let readings = vec![
        reading("??", 90, 1),
        reading("XYZ 999", 80, 2),
        PlateReading { outcome: Err("engine crashed".into()), timestamp: 3, image_path: "p".into() },
        reading("abc123", 70, 4),
        reading("toolongplate", 60, 5),
    ];
    let events = app.process_frame(&readings);
    assert_eq!(events.len(), 2);
    assert_eq!(events[0].reading, 1);
    assert_eq!(events[0].event.plate_number, "XYZ999");
    assert_eq!(events[0].event.timestamp, 2);
    assert_eq!(events[0].event.confidence, 800_000);
    assert_eq!(events[0].event.image_path, "detections/2.jpg");
    assert_eq!(events[0].event.access_status, AccessStatus::Suspicious);
    assert_eq!(events[1].reading, 3);
    assert_eq!(events[1].event.plate_number, "ABC123");
    assert_eq!(events[1].event.timestamp, 4);
    assert_eq!(events[1].event.access_status, AccessStatus::Allowed);
    assert!(app.process_frame(&vec![]).is_empty());
}

#[test]
fn only_suspicious_plates_call_for_an_alert() {
    let app = app(&[]);
    let mut event = app.process_detection(&reading("ABCD", 50, 0)).unwrap();
    assert!(needs_alert(&event));
    event.access_status = AccessStatus::Allowed;
    assert!(!needs_alert(&event));
    event.access_status = AccessStatus::Denied;
    assert!(!needs_alert(&event));
}

#[test]
fn crop_regions_are_held_within_the_frame() {
    let inside = crop_region(&boxed(10_000, 20_000, 110_500, 70_999), 640, 480);
    assert_eq!(inside, Region { x: 10, y: 20, width: 100, height: 50 });
    let over = crop_region(&boxed(-5_000, -1, 700_000, 480_000), 640, 480);
    assert_eq!(over, Region { x: 0, y: 0, width: 640, height: 480 });
    let beyond = crop_region(&boxed(650_000, 10_000, 900_000, 20_000), 640, 480);
    assert_eq!(beyond, Region { x: 640, y: 10, width: 0, height: 10 });
    let inverted = crop_region(&boxed(100_000, 100_000, 50_000, 50_000), 640, 480);
    assert_eq!(inverted, Region { x: 100, y: 100, width: 0, height: 0 });
    let extreme = crop_region(&boxed(i64::MIN, i64::MIN, i64::MAX, i64::MAX), 640, 480);
    assert_eq!(extreme, Region { x: 0, y: 0, width: 640, height: 480 });
    let sub_pixel = crop_region(&boxed(999, 1_000, 1_999, 2_000), 640, 480);
    assert_eq!(sub_pixel, Region { x: 0, y: 1, width: 1, height: 1 });
}

#[test]
fn plates_are_cut_out_of_the_frame() {
    let mut pixels = Vec::new();
    for y in 0..4u8 {
        for x in 0..5u8 {
            pixels.extend_from_slice(&[x, y, 100 + 10 * y + x]);
        }
    }
    let frame = Image { width: 5, height: 4, format: PixelFormat::Rgb, pixels };
    let crop = crop_plate(&frame, &boxed(1_000, 2_000, 4_000, 9_000));
    assert_eq!((crop.width, crop.height, crop.format), (3, 2, PixelFormat::Rgb));
    assert_eq!(
        crop.pixels,
        vec![1, 2, 121, 2, 2, 122, 3, 2, 123, 1, 3, 131, 2, 3, 132, 3, 3, 133]
    );
    let gray =
        Image { width: 3, height: 2, format: PixelFormat::Gray, pixels: vec![1, 2, 3, 4, 5, 6] };
    let cut = crop_plate(&gray, &boxed(1_000, 0, 3_000, 2_000));
    assert_eq!(cut.pixels, vec![2, 3, 5, 6]);
    let nothing = crop_plate(&gray, &boxed(5_000, 5_000, 9_000, 9_000));
    assert_eq!((nothing.width, nothing.height), (0, 0));
    assert!(nothing.pixels.is_empty());
}

#[test]
fn detection_images_are_kept_under_detections() {
    assert_eq!(
        detection_image_path("20240131_235959.123"),
        "detections/20240131_235959.123.jpg"
    );
}

#[test]
fn detections_are_outlined_in_red() {
    let (w, h) = (12u32, 10u32);
    let frame = Image { width: w, height: h, format: PixelFormat::Rgb, pixels: vec![7; 360] };
    let marked = save_detection_image(&frame, &boxed(2_000, 3_000, 8_000, 7_000));
    assert_eq!((marked.width, marked.height, marked.format), (w, h, PixelFormat::Rgb));
    let pixel = |x: u32, y: u32| {
        let at = ((y * w + x) * 3) as usize;
        [marked.pixels[at], marked.pixels[at + 1], marked.pixels[at + 2]]
    };
    // The region is 6 wide and 4 high, from (2, 3) to (7, 6).
    for x in 2..=7 {
        assert_eq!(pixel(x, 3), [255, 0, 0]);
        assert_eq!(pixel(x, 6), [255, 0, 0]);
    }
    for y in 3..=6 {
        assert_eq!(pixel(2, y), [255, 0, 0]);
        assert_eq!(pixel(7, y), [255, 0, 0]);
    }
    assert_eq!(pixel(4, 4), [7, 7, 7]);
    assert_eq!(pixel(1, 3), [7, 7, 7]);
    assert_eq!(pixel(8, 6), [7, 7, 7]);
    assert_eq!(pixel(0, 0), [7, 7, 7]);
}

#[test]
fn what_cannot_be_outlined_is_kept_as_it_is() {
    let frame = Image { width: 4, height: 4, format: PixelFormat::Rgb, pixels: vec![9; 48] };
    assert_eq!(save_detection_image(&frame, &boxed(9_000, 9_000, 20_000, 20_000)), frame);
    assert_eq!(save_detection_image(&frame, &boxed(3_000, 3_000, 1_000, 1_000)), frame);
    let gray = Image { width: 4, height: 4, format: PixelFormat::Gray, pixels: vec![9; 16] };
    assert_eq!(save_detection_image(&gray, &boxed(0, 0, 3_000, 3_000)), gray);
}

#[test]
fn events_of_one_instant_keep_their_boxes_apart() {
    let app = app(&[]);
    let readings = vec![reading("AAAA", 90, 7), reading("??", 90, 7), reading("BBBB", 90, 7)];
    let events = app.process_frame(&readings);
    assert_eq!(events.len(), 2);
    assert_eq!(events[0].event.image_path, events[1].event.image_path);
    assert_eq!((events[0].reading, events[1].reading), (0, 2));
    assert_eq!(events[0].event.plate_number, "AAAA");
    assert_eq!(events[1].event.plate_number, "BBBB");
}

#[test]
fn startup_tells_which_name_is_missing() {
    let notifier = || NotificationService::new(None, None, None);
    let no_input = ModelInfo { input_names: vec![], output_names: vec![] };
    match App::new(Ok(no_input), EngineSetup::Ready, notifier(), &vec![]) {
        Err(StartupError::Detector(DetectorError::ModelLoadError(m))) => {
            assert_eq!(m, "Failed to get input name")
        }
        _ => panic!("expected the detector's error"),
    }
    let no_output = ModelInfo { input_names: vec!["i".into()], output_names: vec![] };
    match App::new(Ok(no_output), EngineSetup::ConfigFailed("x".into()), notifier(), &vec![]) {
        Err(StartupError::Detector(DetectorError::ModelLoadError(m))) => {
            assert_eq!(m, "Failed to get output name")
        }
        _ => panic!("expected the detector's error"),
    }
    match App::new(model(), EngineSetup::ConfigFailed("refused".into()), notifier(), &vec![]) {
        Err(StartupError::Ocr(OcrError::TesseractInitError(m))) => assert_eq!(m, "refused"),
        _ => panic!("expected the reader's error"),
    }
    let two = ModelInfo {
        input_names: vec!["first".into(), "second".into()],
        output_names: vec!["out".into(), "aux".into()],
    };
    let started = App::new(Ok(two), EngineSetup::Ready, notifier(), &vec![]).unwrap();
    assert_eq!(started.detector.input_name, "first");
    assert_eq!(started.detector.output_name, "out");
}

#[test]
fn outlines_are_drawn_up_to_the_drawing_limit() {
    // A frame one pixel high and wider than the limit: a region that ends
    // within the limit is outlined, one that ends beyond it is not.
    let width: u32 = 0x0100_0000 + 8;
    let frame = Image {
        width,
        height: 1,
        format: PixelFormat::Rgb,
        pixels: vec![7; 3 * width as usize],
    };
    let limit: i64 = 0x0100_0000;
    let within = save_detection_image(&frame, &boxed((limit - 4) * 1000, 0, limit * 1000, 1_000));
    let last = 3 * (limit as usize - 1);
    assert_eq!(&within.pixels[last..last + 3], &[255, 0, 0]);
    assert_eq!(&within.pixels[last + 3..last + 6], &[7, 7, 7]);
    let beyond =
        save_detection_image(&frame, &boxed((limit - 4) * 1000, 0, (limit + 1) * 1000, 1_000));
    assert_eq!(beyond, frame);
}

#[test]
fn an_outline_covers_the_first_and_last_columns_and_rows_of_its_region() {
    let (w, h) = (9u32, 7u32);
    let pixels: Vec<u8> = (0..w * h * 3).map(|i| (i % 200) as u8).collect();
    let frame = Image { width: w, height: h, format: PixelFormat::Rgb, pixels };
    let mut drawn = 0;
    for x0 in 0..w as i64 {
        for y0 in 0..h as i64 {
            for x1 in [x0 + 1, x0 + 2, x0 + 4, 20] {
                for y1 in [y0 + 1, y0 + 2, y0 + 3, 20] {
                    let bbox = boxed(x0 * 1000, y0 * 1000, x1 * 1000 + 999, y1 * 1000);
                    let region = crop_region(&bbox, w, h);
                    assert!(region.width > 0 && region.height > 0);
                    let mut expected = frame.pixels.clone();
                    for y in 0..h {
                        for x in 0..w {
                            let inside = x >= region.x
                                && x < region.x + region.width
                                && y >= region.y
                                && y < region.y + region.height;
                            let edge = x == region.x
                                || x == region.x + region.width - 1
                                || y == region.y
                                || y == region.y + region.height - 1;
                            if inside && edge {
                                let at = ((y * w + x) * 3) as usize;
                                expected[at..at + 3].copy_from_slice(&[255, 0, 0]);
                            }
                        }
                    }
                    assert_eq!(save_detection_image(&frame, &bbox).pixels, expected);
                    drawn += 1;
                }
            }
        }
    }
    assert_eq!(drawn, 9 * 7 * 16);
}
