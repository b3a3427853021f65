//! Preparing a plate crop for text recognition and judging what was recognised.

use vstd::prelude::*;
use vstd::string::StringExecFns;
use crate::imaging::{
    adaptive_threshold, adaptive_threshold_of, resize_lanczos3, rgb_luma, stretch_contrast,
    stretched, to_luma8, Image, PixelFormat,
};
use crate::text::{
    is_plate, is_valid_plate, lemma_valid_plate_is_fixed, normalize, normalized, trim, trimmed,
};

verus! {

/// A crop narrower than this is enlarged.
pub const MIN_WIDTH: u32 = 100;

/// A crop lower than this is enlarged.
pub const MIN_HEIGHT: u32 = 30;

/// A crop wider than this is reduced, to exactly this width.
pub const MAX_WIDTH: u32 = 1000;

/// A crop higher than this is reduced, to exactly this height.
pub const MAX_HEIGHT: u32 = 300;

/// Samples this close to either end of the range are saturated by contrast stretching.
pub const CONTRAST_TOLERANCE: u8 = 50;

/// Radius of the block over which the local threshold is taken.
pub const BLOCK_RADIUS: u32 = 15;

/// Parts per million that one percent of engine confidence is worth.
pub const PPM_PER_PERCENT: u32 = 10_000;

/// Why a plate could not be read.
#[derive(Debug)]
pub enum OcrError {
    TesseractInitError(String),
    ImageProcessError(String),
    ProcessingError(String),
    ValidationError(String),
}

/// A plate as it was read: the text as recognised, its confidence in parts
/// per million, and the text in normal form.
#[derive(Debug, Clone)]
pub struct LicensePlateText {
    pub text: String,
    pub confidence: u32,
    pub processed_text: String,
}

/// What the recognition engine returned for one image.
#[derive(Debug)]
pub struct Recognition {
    pub text: String,
    /// Mean confidence in percent.
    pub mean_confidence: u32,
}

/// How starting the recognition engine went.
#[derive(Debug)]
pub enum EngineSetup {
    Ready,
    /// The engine could not be created.
    InitFailed(String),
    /// The engine refused its configuration.
    ConfigFailed(String),
}

/// The reader of plates.
#[derive(Debug)]
pub struct PlateOcr {}

/// The size an image of the given size is brought to before it is binarised,
/// or `None` where it is left as it is. Small images double in size, large
/// ones are brought down to exactly the largest size.
pub open spec fn target_size(width: u32, height: u32) -> Option<(int, int)> {
    if width < MIN_WIDTH || height < MIN_HEIGHT {
        Some((2 * width, 2 * height))
    } else if width > MAX_WIDTH || height > MAX_HEIGHT {
        Some((MAX_WIDTH as int, MAX_HEIGHT as int))
    } else {
        None
    }
}

/// The size of the binarised image.
pub open spec fn final_size(width: u32, height: u32) -> (int, int) {
    match target_size(width, height) {
        Some(size) => size,
        None => (width as int, height as int),
    }
}

/// The image can be processed on this machine: after sizing, the sums that
/// the local threshold runs over fit 32 bits, and the resize buffers fit memory.
pub open spec fn within_limits(width: u32, height: u32) -> bool {
    &&& 510 * final_size(width, height).0 * final_size(width, height).1 <= u32::MAX
    &&& 4 * width * final_size(width, height).1 <= usize::MAX
}

/// The gray samples of an image.
pub open spec fn luma_samples(image: Image) -> Seq<u8> {
    match image.format {
        PixelFormat::Gray => image.pixels@,
        PixelFormat::Rgb => rgb_luma(image.pixels@),
    }
}

/// The samples of a gray image after contrast stretching and local thresholding.
pub open spec fn binarized(pixels: Seq<u8>, width: int, height: int) -> Seq<u8> {
    adaptive_threshold_of(
        stretched(pixels, CONTRAST_TOLERANCE, (255 - CONTRAST_TOLERANCE) as u8, 0, 255),
        width,
        height,
        BLOCK_RADIUS as int,
        0,
    )
}

/// Why an image with these properties cannot be prepared.
pub open spec fn rejection_message(image: Image) -> Seq<char> {
    if !image.well_formed() {
        "Image data does not match its dimensions"@
    } else if image.is_empty() {
        "Image is empty"@
    } else {
        "Image is too large"@
    }
}

/// All samples are black or white.
pub open spec fn is_binary(pixels: Seq<u8>) -> bool {
    forall|i: int| 0 <= i < pixels.len() ==> pixels[i] == 0 || pixels[i] == 255
}

/// The message of a text that is no plate.
pub open spec fn validation_message(processed: Seq<char>) -> Seq<char> {
    "Text '"@ + processed + "' does not match license plate pattern"@
}

/// The message of an engine that could not be created.
pub open spec fn init_message(cause: Seq<char>) -> Seq<char> {
    "Failed to initialize Tesseract: "@ + cause
}

impl OcrError {
    /// The error in words.
    pub open spec fn describe(self) -> Seq<char> {
        match self {
            OcrError::TesseractInitError(m) => "Failed to initialize Tesseract: "@ + m@,
            OcrError::ImageProcessError(m) => "Failed to process image: "@ + m@,
            OcrError::ProcessingError(m) => "OCR processing error: "@ + m@,
            OcrError::ValidationError(m) => "Invalid license plate format: "@ + m@,
        }
    }

    /// The error in words.
    pub fn message(&self) -> (r: String)
        ensures
            r@ == self.describe(),
    {
        match self {
            OcrError::TesseractInitError(m) => String::from_str(
                "Failed to initialize Tesseract: ",
            ).concat(m.as_str()),
            OcrError::ImageProcessError(m) => String::from_str("Failed to process image: ").concat(
                m.as_str(),
            ),
            OcrError::ProcessingError(m) => String::from_str("OCR processing error: ").concat(
                m.as_str(),
            ),
            OcrError::ValidationError(m) => String::from_str(
                "Invalid license plate format: ",
            ).concat(m.as_str()),
        }
    }
}

impl PlateOcr {
    /// The reader, once the recognition engine has been started; the error
    /// that tells why it could not be.
    pub fn new(setup: EngineSetup) -> (r: Result<PlateOcr, OcrError>)
        ensures
            setup is Ready ==> r is Ok,
            setup matches EngineSetup::InitFailed(cause) ==> (r matches Err(
                OcrError::TesseractInitError(m),
            ) && m@ == init_message(cause@)),
            setup matches EngineSetup::ConfigFailed(cause) ==> (r matches Err(
                OcrError::TesseractInitError(m),
            ) && m@ == cause@),
    {
        match setup {
            EngineSetup::Ready => Ok(PlateOcr {  }),
            EngineSetup::InitFailed(cause) => Err(
                OcrError::TesseractInitError(
                    String::from_str("Failed to initialize Tesseract: ").concat(cause.as_str()),
                ),
            ),
            EngineSetup::ConfigFailed(cause) => Err(OcrError::TesseractInitError(cause)),
        }
    }

    /// Stretches the contrast of a gray image and binarises it against the
    /// local brightness.
    pub fn binarize(&self, gray: &Image) -> (r: Image)
        requires
            gray.well_formed(),
            gray.format == PixelFormat::Gray,
            !gray.is_empty(),
            510 * gray.width * gray.height <= u32::MAX,
        ensures
            r.width == gray.width,
            r.height == gray.height,
            r.format == PixelFormat::Gray,
            r.well_formed(),
            r.pixels@ == binarized(gray.pixels@, gray.width as int, gray.height as int),
            is_binary(r.pixels@),
    {
        let contrasted: Image = stretch_contrast(
            gray,
            CONTRAST_TOLERANCE,
            255 - CONTRAST_TOLERANCE,
            0,
            255,
        );
        adaptive_threshold(&contrasted, BLOCK_RADIUS, 0)
    }

    /// Prepares a plate crop for recognition: gray scale, a size the engine
    /// reads well, stretched contrast, and binarisation. An image whose data
    /// does not match its dimensions, that is empty, or that is too large to
    /// be processed is refused.
    pub fn preprocess_image(&self, image: &Image) -> (r: Result<Image, OcrError>)
        ensures
            r is Ok <==> image.well_formed() && !image.is_empty() && within_limits(
                image.width,
                image.height,
            ),
            r matches Ok(out) ==> {
                &&& out.format == PixelFormat::Gray
                &&& out.well_formed()
                &&& out.width == final_size(image.width, image.height).0
                &&& out.height == final_size(image.width, image.height).1
                &&& is_binary(out.pixels@)
                &&& target_size(image.width, image.height) is None ==> out.pixels@ == binarized(
                    luma_samples(*image),
                    image.width as int,
                    image.height as int,
                )
                &&& target_size(image.width, image.height) is Some ==> exists|sized: Seq<u8>|
                    sized.len() == out.width * out.height && out.pixels@ == binarized(
                        sized,
                        out.width as int,
                        out.height as int,
                    )
            },
            r matches Err(e) ==> (e matches OcrError::ImageProcessError(m) && m@
                == rejection_message(*image)),
    {
        if !image.is_well_formed() {
            return Err(
                OcrError::ImageProcessError(
                    String::from_str("Image data does not match its dimensions"),
                ),
            );
        }
        if image.width == 0 || image.height == 0 {
            return Err(OcrError::ImageProcessError(String::from_str("Image is empty")));
        }
        let gray: Image = match image.format {
            PixelFormat::Rgb => to_luma8(image),
            PixelFormat::Gray => Image {
                width: image.width,
                height: image.height,
                format: PixelFormat::Gray,
                pixels: image.pixels.clone(),
            },
        };
        let width: u32 = gray.width;
        let height: u32 = gray.height;
        if width < MIN_WIDTH || height < MIN_HEIGHT {
            let wide: u128 = 2 * (width as u128);
            let high: u128 = 2 * (height as u128);
            assert(wide * high <= 0x2_0000_0000 * 0x2_0000_0000) by (nonlinear_arith)
                requires
                    wide <= 0x2_0000_0000,
                    high <= 0x2_0000_0000,
            ;
            assert(510 * (2 * width) * (2 * height) == 510 * (wide * high)) by (nonlinear_arith)
                requires
                    wide == 2 * width,
                    high == 2 * height,
            ;
            if 510 * (wide * high) > (u32::MAX as u128) {
                return Err(OcrError::ImageProcessError(String::from_str("Image is too large")));
            }
            assert(wide <= u32::MAX && high <= u32::MAX && 4 * width * (2 * height) <= u32::MAX && 4
                * (2 * width) * (2 * height) <= u32::MAX && 510 * (2 * width) * (2 * height)
                <= u32::MAX) by (nonlinear_arith)
                requires
                    wide == 2 * width,
                    high == 2 * height,
                    width > 0,
                    height > 0,
                    510 * (wide * high) <= u32::MAX,
            ;
            assert(u32::MAX <= usize::MAX);
            let sized: Image = resize_lanczos3(&gray, wide as u32, high as u32);
            let out: Image = self.binarize(&sized);
            assert(sized.pixels@.len() == out.width * out.height);
            Ok(out)
        } else if width > MAX_WIDTH || height > MAX_HEIGHT {
            if 1200 * (width as u128) > (usize::MAX as u128) {
                return Err(OcrError::ImageProcessError(String::from_str("Image is too large")));
            }
            let sized: Image = resize_lanczos3(&gray, MAX_WIDTH, MAX_HEIGHT);
            let out: Image = self.binarize(&sized);
            assert(sized.pixels@.len() == out.width * out.height);
            Ok(out)
        } else {
            assert(510 * width * height <= 510 * 1000 * 300 && 4 * width * height <= 4 * 1000
                * 300) by (nonlinear_arith)
                requires
                    width <= 1000,
                    height <= 300,
            ;
            Ok(self.binarize(&gray))
        }
    }

    /// Normalises recognised text and holds it against the plate format. A
    /// text that comes out is a valid plate in normal form: handed in again,
    /// it comes out as it is.
    pub fn postprocess_text(&self, text: &str) -> (r: Result<String, OcrError>)
        ensures
            is_valid_plate(normalized(text@)) ==> (r matches Ok(processed) && processed@
                == normalized(text@)),
            r matches Ok(processed) ==> is_valid_plate(processed@) && normalized(processed@)
                == processed@,
            !is_valid_plate(normalized(text@)) ==> (r matches Err(OcrError::ValidationError(m))
                && m@ == validation_message(normalized(text@))),
    {
        let processed: String = normalize(text);
        if !is_plate(processed.as_str()) {
            let message: String = String::from_str("Text '").concat(processed.as_str()).concat(
                "' does not match license plate pattern",
            );
            return Err(OcrError::ValidationError(message));
        }
        proof {
            lemma_valid_plate_is_fixed(processed@);
        }
        Ok(processed)
    }

    /// Judges what the engine made of a plate image. An engine failure is
    /// handed on; recognised text is validated, and its confidence rescaled
    /// from percent to parts per million.
    pub fn process_plate(&self, outcome: Result<Recognition, String>) -> (r: Result<
        LicensePlateText,
        OcrError,
    >)
        requires
            outcome matches Ok(recognition) ==> recognition.mean_confidence <= 100,
        ensures
            outcome matches Err(cause) ==> (r matches Err(OcrError::ProcessingError(m)) && m@
                == cause@),
            outcome matches Ok(recognition) ==> {
                if is_valid_plate(normalized(recognition.text@)) {
                    r matches Ok(plate) && plate.text@ == trimmed(recognition.text@)
                        && plate.processed_text@ == normalized(recognition.text@)
                        && plate.confidence == recognition.mean_confidence * PPM_PER_PERCENT
                } else {
                    r matches Err(OcrError::ValidationError(m)) && m@ == validation_message(
                        normalized(recognition.text@),
                    )
                }
            },
    {
        match outcome {
            Err(cause) => Err(OcrError::ProcessingError(cause)),
            Ok(recognition) => {
                let confidence: u32 = recognition.mean_confidence * PPM_PER_PERCENT;
                match self.postprocess_text(recognition.text.as_str()) {
                    Err(e) => Err(e),
                    Ok(processed_text) => Ok(
                        LicensePlateText {
                            text: trim(recognition.text.as_str()),
                            confidence,
                            processed_text,
                        },
                    ),
                }
            },
        }
    }
}

} // verus!
