//! From the boxes of a frame to events: cropping, the allow-list, and the
//! decision on access.

use vstd::prelude::*;
use vstd::string::StringExecFns;
use crate::detector::{DetectorError, LicensePlateDetector, ModelInfo};
use crate::geometry::{BoundingBox, COORDINATE_SCALE};
use crate::imaging::{
    crop_imm, crop_of, draw_hollow_rect, with_outline, Image, PixelFormat, Region,
    DRAWING_LIMIT,
};
use crate::notification::{AccessStatus, DetectionEvent, NotificationService};
use crate::ocr::{
    init_message, validation_message, EngineSetup, LicensePlateText, OcrError, PlateOcr,
    Recognition, PPM_PER_PERCENT,
};
use crate::text::{is_valid_plate, normalize, normalized};

verus! {

/// The plates that are let in, each in normal form and none twice.
#[derive(Debug)]
pub struct Whitelist {
    pub plates: Vec<String>,
}

/// What was recognised in the crop of one box, and what the event of that
/// box is stamped with.
#[derive(Debug)]
pub struct PlateReading {
    pub outcome: Result<Recognition, String>,
    /// Seconds since the start of 1970, UTC.
    pub timestamp: i64,
    pub image_path: String,
}

/// An event of a frame, with the place that its reading has among the
/// readings of the frame.
#[derive(Debug)]
pub struct FrameEvent {
    pub reading: usize,
    pub event: DetectionEvent,
}

/// Why the pipeline could not be set up.
#[derive(Debug)]
pub enum StartupError {
    Detector(DetectorError),
    Ocr(OcrError),
}

/// The pipeline: detector, reader, alerts and allow-list.
#[derive(Debug)]
pub struct App {
    pub detector: LicensePlateDetector,
    pub ocr: PlateOcr,
    pub notifier: NotificationService,
    pub whitelist: Whitelist,
}

/// The normal forms of the entries of a list.
pub open spec fn plate_set(entries: Seq<String>) -> Set<Seq<char>> {
    Set::new(
        |plate: Seq<char>|
            exists|i: int| 0 <= i < entries.len() && normalized(#[trigger] entries[i]@) == plate,
    )
}

impl View for Whitelist {
    type V = Set<Seq<char>>;

    open spec fn view(&self) -> Set<Seq<char>> {
        Set::new(
            |plate: Seq<char>|
                exists|i: int| 0 <= i < self.plates@.len() && (#[trigger] self.plates@[i])@ == plate,
        )
    }
}

impl Whitelist {
    /// No plate is held twice.
    pub open spec fn well_formed(&self) -> bool {
        forall|i: int, j: int|
            0 <= i < j < self.plates@.len() ==> (#[trigger] self.plates@[i])@ != (
            #[trigger] self.plates@[j])@
    }

    /// The allow-list of the given entries, each taken in its normal form.
    pub fn load(entries: &Vec<String>) -> (r: Whitelist)
        ensures
            r.well_formed(),
            r@ == plate_set(entries@),
    {
        let mut list = Whitelist { plates: Vec::new() };
        let mut i: usize = 0;
        while i < entries.len()
            invariant
                i <= entries.len(),
                list.well_formed(),
                list@ == plate_set(entries@.take(i as int)),
            decreases entries.len() - i,
        {
            let plate: String = normalize(entries[i].as_str());
            let ghost before = list;
            let known: bool = list.contains(plate.as_str());
            if !known {
                list.plates.push(plate);
            }
            proof {
                let now = entries@.take(i + 1);
                let then = entries@.take(i as int);
                assert forall|p: Seq<char>| list@.contains(p) <==> plate_set(now).contains(p) by {
                    if list@.contains(p) {
                        let k = choose|k: int|
                            0 <= k < list.plates@.len() && (#[trigger] list.plates@[k])@ == p;
                        if k < before.plates@.len() {
                            assert(before.plates@[k] == list.plates@[k]);
                            assert(before@.contains(p));
                            let m = choose|m: int|
                                0 <= m < then.len() && normalized(#[trigger] then[m]@) == p;
                            assert(now[m] == then[m]);
                        } else {
                            assert(now[i as int] == entries@[i as int]);
                        }
                    }
                    if plate_set(now).contains(p) {
                        let m = choose|m: int|
                            0 <= m < now.len() && normalized(#[trigger] now[m]@) == p;
                        if m < i {
                            assert(then[m] == now[m]);
                            assert(plate_set(then).contains(p));
                            let k = choose|k: int|
                                0 <= k < before.plates@.len() && (#[trigger] before.plates@[k])@
                                    == p;
                            assert(list.plates@[k] == before.plates@[k]);
                        } else {
                            if known {
                                assert(before@.contains(p));
                            } else {
                                assert(list.plates@[list.plates@.len() - 1]@ == p);
                            }
                        }
                    }
                }
                assert(list@ =~= plate_set(now));
                if !known {
                    assert forall|a: int, b: int| 0 <= a < b < list.plates@.len() implies (
                    #[trigger] list.plates@[a])@ != (#[trigger] list.plates@[b])@ by {
                        assert(list.plates@[a] == before.plates@[a]);
                        if b < before.plates@.len() {
                            assert(list.plates@[b] == before.plates@[b]);
                        } else {
                            assert(!before@.contains(plate@));
                        }
                    }
                }
            }
            i = i + 1;
        }
        proof {
            assert(entries@.take(entries@.len() as int) == entries@);
        }
        list
    }

    /// Whether the plate is on the list.
    pub fn contains(&self, plate: &str) -> (r: bool)
        ensures
            r == self@.contains(plate@),
    {
        let wanted: String = String::from_str(plate);
        let mut i: usize = 0;
        while i < self.plates.len()
            invariant
                i <= self.plates.len(),
                wanted@ == plate@,
                forall|k: int| 0 <= k < i ==> (#[trigger] self.plates@[k])@ != plate@,
            decreases self.plates.len() - i,
        {
            if self.plates[i] == wanted {
                return true;
            }
            i = i + 1;
        }
        false
    }

    /// How many plates are on the list.
    pub fn len(&self) -> (r: usize)
        ensures
            r == self.plates@.len(),
    {
        self.plates.len()
    }
}

/// The decision on a plate: allowed if it is on the list, suspicious if not.
pub open spec fn decision(whitelist: Set<Seq<char>>, plate: Seq<char>) -> AccessStatus {
    if whitelist.contains(plate) {
        AccessStatus::Allowed
    } else {
        AccessStatus::Suspicious
    }
}

/// The pixel column or row that a coordinate falls into, held within `0..=limit`.
pub open spec fn clamped_pixel(coordinate: i64, limit: u32) -> int {
    if coordinate <= 0 {
        0
    } else if coordinate / COORDINATE_SCALE >= limit {
        limit as int
    } else {
        coordinate as int / COORDINATE_SCALE as int
    }
}

/// The part of a frame of the given size that a box covers.
pub open spec fn region_of(bbox: BoundingBox, width: u32, height: u32) -> Region {
    let left = clamped_pixel(bbox.x_min, width);
    let right = clamped_pixel(bbox.x_max, width);
    let top = clamped_pixel(bbox.y_min, height);
    let bottom = clamped_pixel(bbox.y_max, height);
    Region {
        x: left as u32,
        y: top as u32,
        width: (if right >= left { right - left } else { 0 }) as u32,
        height: (if bottom >= top { bottom - top } else { 0 }) as u32,
    }
}

/// The frame with the outline of a region drawn in red.
pub open spec fn outlined(frame: Image, region: Region) -> Seq<u8> {
    with_outline(frame.pixels@, frame.width as int, region, overlay_color())
}

/// The colour in which a detected box is drawn: red.
pub open spec fn overlay_color() -> Seq<u8> {
    seq![255u8, 0u8, 0u8]
}

/// A box can be drawn on a frame: the frame is a colour image whose sides
/// fit `i32`, and the part of it that the box covers has at least one pixel
/// and corners within `DRAWING_LIMIT`.
pub open spec fn is_drawable(frame: Image, region: Region) -> bool {
    &&& frame.format == PixelFormat::Rgb
    &&& frame.width <= i32::MAX
    &&& frame.height <= i32::MAX
    &&& !region.is_empty()
    &&& region.x + region.width <= DRAWING_LIMIT
    &&& region.y + region.height <= DRAWING_LIMIT
}

/// The event of a plate that was read.
pub open spec fn reads_as(
    event: DetectionEvent,
    whitelist: Set<Seq<char>>,
    reading: PlateReading,
) -> bool {
    &&& reading.outcome matches Ok(recognition)
    &&& event.timestamp == reading.timestamp
    &&& event.plate_number@ == normalized(recognition.text@)
    &&& event.confidence == recognition.mean_confidence * PPM_PER_PERCENT
    &&& event.image_path@ == reading.image_path@
    &&& event.access_status == decision(whitelist, normalized(recognition.text@))
}

/// The reading gives an event: the engine returned a text whose normal form
/// is a valid plate.
pub open spec fn is_readable(reading: PlateReading) -> bool {
    reading.outcome matches Ok(recognition) && is_valid_plate(normalized(recognition.text@))
}

/// How many of the first `n` readings give an event.
pub open spec fn readable_count(readings: Seq<PlateReading>, n: int) -> int
    decreases n,
{
    if n <= 0 {
        0
    } else {
        readable_count(readings, n - 1) + if is_readable(readings[n - 1]) {
            1int
        } else {
            0int
        }
    }
}

fn clamp_pixel(coordinate: i64, limit: u32) -> (r: u32)
    ensures
        r == clamped_pixel(coordinate, limit),
        r <= limit,
{
    if coordinate <= 0 {
        0
    } else {
        let pixel: i64 = coordinate / COORDINATE_SCALE;
        if pixel >= limit as i64 {
            limit
        } else {
            pixel as u32
        }
    }
}

/// The part of a frame of the given size that a box covers. The corners of
/// the box are held within the frame, so the region always lies inside it.
pub fn crop_region(bbox: &BoundingBox, width: u32, height: u32) -> (r: Region)
    ensures
        r == region_of(*bbox, width, height),
        r.fits(width, height),
{
    let left: u32 = clamp_pixel(bbox.x_min, width);
    let right: u32 = clamp_pixel(bbox.x_max, width);
    let top: u32 = clamp_pixel(bbox.y_min, height);
    let bottom: u32 = clamp_pixel(bbox.y_max, height);
    Region {
        x: left,
        y: top,
        width: if right >= left { right - left } else { 0 },
        height: if bottom >= top { bottom - top } else { 0 },
    }
}

/// Cuts the part that a box covers out of a frame.
pub fn crop_plate(frame: &Image, bbox: &BoundingBox) -> (r: Image)
    requires
        frame.well_formed(),
    ensures
        r.well_formed(),
        r.format == frame.format,
        r.width == region_of(*bbox, frame.width, frame.height).width,
        r.height == region_of(*bbox, frame.width, frame.height).height,
        r.pixels@ == crop_of(
            frame.pixels@,
            frame.width as int,
            frame.format.channels(),
            region_of(*bbox, frame.width, frame.height),
        ),
{
    crop_imm(frame, crop_region(bbox, frame.width, frame.height))
}

/// The frame as it is kept for a detection: with the outline of the box in
/// red, where the box can be drawn, and as it is where it cannot.
pub fn save_detection_image(frame: &Image, bbox: &BoundingBox) -> (r: Image)
    requires
        frame.well_formed(),
    ensures
        r.width == frame.width,
        r.height == frame.height,
        r.format == frame.format,
        r.well_formed(),
        r.pixels@ == if is_drawable(*frame, region_of(*bbox, frame.width, frame.height)) {
            outlined(*frame, region_of(*bbox, frame.width, frame.height))
        } else {
            frame.pixels@
        },
{
    let region: Region = crop_region(bbox, frame.width, frame.height);
    let limit: u64 = DRAWING_LIMIT as u64;
    let in_range: bool = (region.x as u64) + (region.width as u64) <= limit && (region.y as u64)
        + (region.height as u64) <= limit;
    match frame.format {
        PixelFormat::Rgb => {
            if frame.width <= 0x7fff_ffff && frame.height <= 0x7fff_ffff && region.width > 0
                && region.height > 0 && in_range {
                let red: [u8; 3] = [255, 0, 0];
                assert(red@ =~= overlay_color());
                return draw_hollow_rect(frame, region, red);
            }
        },
        PixelFormat::Gray => {},
    }
    Image {
        width: frame.width,
        height: frame.height,
        format: frame.format,
        pixels: frame.pixels.clone(),
    }
}

/// Whether an event calls for an alert: only a suspicious plate does.
pub fn needs_alert(event: &DetectionEvent) -> (r: bool)
    ensures
        r == (event.access_status == AccessStatus::Suspicious),
{
    match event.access_status {
        AccessStatus::Suspicious => true,
        _ => false,
    }
}

/// The path under which the image of a detection is kept.
pub fn detection_image_path(stamp: &str) -> (r: String)
    ensures
        r@ == "detections/"@ + stamp@ + ".jpg"@,
{
    String::from_str("detections/").concat(stamp).concat(".jpg")
}

impl App {
    /// Sets the pipeline up from what starting its engines gave. The
    /// detector's failure comes before the reader's.
    pub fn new(
        model: Result<ModelInfo, String>,
        engine: EngineSetup,
        notifier: NotificationService,
        plates: &Vec<String>,
    ) -> (r: Result<App, StartupError>)
        ensures
            match model {
                Err(cause) => r matches Err(
                    StartupError::Detector(DetectorError::ModelLoadError(m)),
                ) && m@ == cause@,
                Ok(info) => {
                    if info.input_names@.len() == 0 {
                        r matches Err(StartupError::Detector(DetectorError::ModelLoadError(m)))
                            && m@ == "Failed to get input name"@
                    } else if info.output_names@.len() == 0 {
                        r matches Err(StartupError::Detector(DetectorError::ModelLoadError(m)))
                            && m@ == "Failed to get output name"@
                    } else {
                        match engine {
                            EngineSetup::InitFailed(cause) => r matches Err(
                                StartupError::Ocr(OcrError::TesseractInitError(m)),
                            ) && m@ == init_message(cause@),
                            EngineSetup::ConfigFailed(cause) => r matches Err(
                                StartupError::Ocr(OcrError::TesseractInitError(m)),
                            ) && m@ == cause@,
                            EngineSetup::Ready => r matches Ok(app) && app.detector.input_name@
                                == info.input_names@[0]@ && app.detector.output_name@
                                == info.output_names@[0]@ && app.notifier == notifier
                                && app.whitelist@ == plate_set(plates@)
                                && app.whitelist.well_formed(),
                        }
                    }
                },
            },
    {
        let detector: LicensePlateDetector = match LicensePlateDetector::new(model) {
            Ok(detector) => detector,
            Err(e) => {
                return Err(StartupError::Detector(e));
            },
        };
        let ocr: PlateOcr = match PlateOcr::new(engine) {
            Ok(ocr) => ocr,
            Err(e) => {
                return Err(StartupError::Ocr(e));
            },
        };
        Ok(App { detector, ocr, notifier, whitelist: Whitelist::load(plates) })
    }

    /// The decision on a plate: allowed if it is on the list, suspicious if
    /// not. No plate is denied.
    pub fn access_status(&self, plate: &str) -> (r: AccessStatus)
        ensures
            r == decision(self.whitelist@, plate@),
            r != AccessStatus::Denied,
    {
        if self.whitelist.contains(plate) {
            AccessStatus::Allowed
        } else {
            AccessStatus::Suspicious
        }
    }

    /// The event of one box, from what was recognised in its crop, or the
    /// reason why the box gives none.
    pub fn process_detection(&self, reading: &PlateReading) -> (r: Result<DetectionEvent, OcrError>)
        requires
            reading.outcome matches Ok(recognition) ==> recognition.mean_confidence <= 100,
        ensures
            r is Ok <==> is_readable(*reading),
            r matches Ok(event) ==> reads_as(event, self.whitelist@, *reading),
            r matches Err(e) ==> match reading.outcome {
                Err(cause) => e matches OcrError::ProcessingError(m) && m@ == cause@,
                Ok(recognition) => e matches OcrError::ValidationError(m) && m@
                    == validation_message(normalized(recognition.text@)),
            },
    {
        let outcome: Result<Recognition, String> = match &reading.outcome {
            Ok(recognition) => Ok(
                Recognition {
                    text: recognition.text.clone(),
                    mean_confidence: recognition.mean_confidence,
                },
            ),
            Err(cause) => Err(cause.clone()),
        };
        let plate: LicensePlateText = match self.ocr.process_plate(outcome) {
            Ok(plate) => plate,
            Err(e) => {
                return Err(e);
            },
        };
        let access_status: AccessStatus = self.access_status(plate.processed_text.as_str());
        Ok(
            DetectionEvent {
                timestamp: reading.timestamp,
                plate_number: plate.processed_text,
                confidence: plate.confidence,
                image_path: reading.image_path.clone(),
                access_status,
            },
        )
    }

    /// The events of a frame, from the readings of its boxes in the order of
    /// the boxes. A box whose crop could not be read, or whose text is no
    /// valid plate, gives no event and does not keep the boxes after it from
    /// giving theirs.
    pub fn process_frame(&self, readings: &Vec<PlateReading>) -> (events: Vec<FrameEvent>)
        requires
            forall|i: int|
                0 <= i < readings@.len() ==> ((#[trigger] readings@[i]).outcome matches Ok(
                    recognition,
                ) ==> recognition.mean_confidence <= 100),
        ensures
            events@.len() == readable_count(readings@, readings@.len() as int),
            forall|i: int|
                0 <= i < readings@.len() && is_readable(#[trigger] readings@[i]) ==> events@[readable_count(
                    readings@,
                    i,
                )].reading == i && reads_as(
                    events@[readable_count(readings@, i)].event,
                    self.whitelist@,
                    readings@[i],
                ),
    {
        let mut events: Vec<FrameEvent> = Vec::new();
        let mut n: usize = 0;
        while n < readings.len()
            invariant
                n <= readings.len(),
                forall|i: int|
                    0 <= i < readings@.len() ==> ((#[trigger] readings@[i]).outcome matches Ok(
                        recognition,
                    ) ==> recognition.mean_confidence <= 100),
                events@.len() == readable_count(readings@, n as int),
                forall|i: int|
                    0 <= i < n && is_readable(#[trigger] readings@[i]) ==> events@[readable_count(
                        readings@,
                        i,
                    )].reading == i && reads_as(
                        events@[readable_count(readings@, i)].event,
                        self.whitelist@,
                        readings@[i],
                    ),
            decreases readings.len() - n,
        {
            proof {
                lemma_readable_count_grows(readings@, n as int);
            }
            match self.process_detection(&readings[n]) {
                Ok(event) => {
                    events.push(FrameEvent { reading: n, event });
                },
                Err(_) => {},
            }
            proof {
                assert forall|i: int|
                    0 <= i < n + 1 && is_readable(#[trigger] readings@[i]) implies events@[readable_count(
                    readings@,
                    i,
                )].reading == i && reads_as(
                    events@[readable_count(readings@, i)].event,
                    self.whitelist@,
                    readings@[i],
                ) by {
                    lemma_readable_count_grows(readings@, i);
                    lemma_readable_count_monotone(readings@, i, n as int);
                }
            }
            n = n + 1;
        }
        events
    }
}

/// A readable reading raises the count by one, any other leaves it.
pub proof fn lemma_readable_count_grows(readings: Seq<PlateReading>, n: int)
    requires
        0 <= n,
    ensures
        0 <= readable_count(readings, n) <= n,
        readable_count(readings, n + 1) == readable_count(readings, n) + if is_readable(
            readings[n],
        ) {
            1int
        } else {
            0int
        },
    decreases n,
{
    if n > 0 {
        lemma_readable_count_grows(readings, n - 1);
    }
}

/// The count of readable readings does not fall as more readings are counted.
pub proof fn lemma_readable_count_monotone(readings: Seq<PlateReading>, i: int, n: int)
    requires
        0 <= i <= n,
    ensures
        readable_count(readings, i) <= readable_count(readings, n),
        i < n && is_readable(readings[i]) ==> readable_count(readings, i) < readable_count(
            readings,
            n,
        ),
    decreases n - i,
{
    if i < n {
        lemma_readable_count_grows(readings, i);
        lemma_readable_count_monotone(readings, i + 1, n);
    }
}

} // verus!
