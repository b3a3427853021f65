//! Alerts: what is said of a detection, over which channels, and what a
//! channel's answer means.

use std::fmt::Write;
use vstd::prelude::*;
use vstd::string::StringExecFns;
use crate::decimal::{percent_text, push_percent};

verus! {

/// Why an alert could not be delivered over a channel.
#[derive(Debug)]
pub enum NotificationError {
    ConfigError(String),
    ApiError(String),
    ImageError(String),
}

/// What the allow-list says of a plate.
#[derive(Debug, Clone, Copy, PartialEq, Eq, Structural)]
pub enum AccessStatus {
    Allowed,
    Denied,
    Suspicious,
}

/// A plate that was seen, read and judged.
#[derive(Debug, Clone)]
pub struct DetectionEvent {
    /// Seconds since the start of 1970, UTC.
    pub timestamp: i64,
    pub plate_number: String,
    /// Parts per million.
    pub confidence: u32,
    pub image_path: String,
    pub access_status: AccessStatus,
}

/// The credentials of the channels that alerts go out over.
#[derive(Debug)]
pub struct NotificationService {
    pub line_token: Option<String>,
    pub telegram_token: Option<String>,
    pub telegram_chat_id: Option<String>,
}

/// The channels an alert can go out over.
#[derive(Debug, Clone, Copy, PartialEq, Eq, Structural)]
pub enum Channel {
    Line,
    Telegram,
}

/// How the fields of a request are encoded.
#[derive(Debug, Clone, Copy, PartialEq, Eq, Structural)]
pub enum BodyEncoding {
    Multipart,
    UrlEncoded,
}

/// A named text field of a request.
#[derive(Debug)]
pub struct TextField {
    pub name: String,
    pub value: String,
}

/// A file sent along with a request.
#[derive(Debug)]
pub struct FilePart {
    pub name: String,
    pub file_name: String,
    pub mime_type: String,
    pub data: Vec<u8>,
}

/// A POST request for a transport to perform.
#[derive(Debug)]
pub struct HttpRequest {
    pub url: String,
    pub bearer_token: Option<String>,
    pub encoding: BodyEncoding,
    pub fields: Vec<TextField>,
    pub file: Option<FilePart>,
}

/// What became of a request.
#[derive(Debug)]
pub enum Delivery {
    /// No answer came.
    TransportFailed(String),
    /// An answer came, with a status and, where it could be read, a body.
    Responded { success: bool, body: Option<String> },
}

/// What an alert needs a transport to attempt.
#[derive(Debug)]
pub struct AlertPlan {
    pub message: String,
    pub line: bool,
    pub telegram: bool,
}

/// How an alert ended: its result, and a line for each channel that failed.
#[derive(Debug)]
pub struct AlertReport {
    pub result: Result<(), NotificationError>,
    pub failures: Vec<String>,
}

/// A request, with texts and bytes as values.
pub struct RequestView {
    pub url: Seq<char>,
    pub bearer_token: Option<Seq<char>>,
    pub encoding: BodyEncoding,
    pub fields: Seq<(Seq<char>, Seq<char>)>,
    pub file: Option<(Seq<char>, Seq<char>, Seq<char>, Seq<u8>)>,
}

impl View for HttpRequest {
    type V = RequestView;

    open spec fn view(&self) -> RequestView {
        RequestView {
            url: self.url@,
            bearer_token: match self.bearer_token {
                Some(token) => Some(token@),
                None => None,
            },
            encoding: self.encoding,
            fields: Seq::new(
                self.fields@.len(),
                |i: int| (self.fields@[i].name@, self.fields@[i].value@),
            ),
            file: match self.file {
                Some(part) => Some((part.name@, part.file_name@, part.mime_type@, part.data@)),
                None => None,
            },
        }
    }
}

/// What `chrono` writes for the instant `seconds` after the start of 1970,
/// UTC, under a format `pattern`; `None` where it has no such instant or
/// cannot write it.
pub uninterp spec fn utc_text(seconds: i64, pattern: Seq<char>) -> Option<Seq<char>>;

/// Calls `chrono::DateTime::from_timestamp` and `DateTime::format`, and writes
/// the result to a text, which is named. The result is `None` where `chrono`
/// has no such instant or reports an error on writing.
#[verifier::external_body]
fn format_utc(seconds: i64, pattern: &str) -> (r: Option<String>)
    ensures
        match r {
            Some(text) => utc_text(seconds, pattern@) == Some(text@),
            None => utc_text(seconds, pattern@) is None,
        },
{
    let time = chrono::DateTime::from_timestamp(seconds, 0)?;
    let mut text = String::new();
    match write!(text, "{}", time.format(pattern)) {
        Ok(()) => Some(text),
        Err(_) => None,
    }
}

/// The label of an access status.
pub open spec fn status_label(status: AccessStatus) -> Seq<char> {
    match status {
        AccessStatus::Allowed => "✅ Allowed"@,
        AccessStatus::Denied => "❌ Denied"@,
        AccessStatus::Suspicious => "⚠️ Suspicious"@,
    }
}

/// The text of an alert.
pub open spec fn message_text(
    plate: Seq<char>,
    status: AccessStatus,
    confidence: u32,
    time: Seq<char>,
) -> Seq<char> {
    "🚗 License Plate Detection\n\nPlate: "@ + plate + "\nStatus: "@ + status_label(status)
        + "\nConfidence: "@ + percent_text(confidence) + "%\nTime: "@ + time
}

/// The time of an event as the alert shows it: year, month, day, hour, minute
/// and second in UTC, or nothing where the calendar has no such instant.
pub open spec fn time_text(seconds: i64) -> Seq<char> {
    match utc_text(seconds, "%Y-%m-%d %H:%M:%S"@) {
        Some(text) => text,
        None => Seq::empty(),
    }
}

/// The text of the alert for an event.
pub open spec fn event_message(event: DetectionEvent) -> Seq<char> {
    message_text(
        event.plate_number@,
        event.access_status,
        event.confidence,
        time_text(event.timestamp),
    )
}

/// The prefix of an error that a channel's service reported.
pub open spec fn api_error_prefix(channel: Channel) -> Seq<char> {
    match channel {
        Channel::Line => "LINE Notify API error: "@,
        Channel::Telegram => "Telegram API error: "@,
    }
}

/// The prefix of the line that records a channel's failure.
pub open spec fn failure_prefix(channel: Channel) -> Seq<char> {
    match channel {
        Channel::Line => "Failed to send LINE notification: "@,
        Channel::Telegram => "Failed to send Telegram message: "@,
    }
}

/// The request that carries an alert to LINE Notify.
pub open spec fn line_request(token: Seq<char>, message: Seq<char>, image: Option<Seq<u8>>) -> RequestView {
    RequestView {
        url: "https://notify-api.line.me/api/notify"@,
        bearer_token: Some(token),
        encoding: BodyEncoding::Multipart,
        fields: seq![("message"@, message)],
        file: match image {
            Some(data) => Some(("imageFile"@, "detection.jpg"@, "image/jpeg"@, data)),
            None => None,
        },
    }
}

/// The request that carries an alert to Telegram: a captioned photo where
/// there is an image, a text message where there is none.
pub open spec fn telegram_request(
    token: Seq<char>,
    chat_id: Seq<char>,
    message: Seq<char>,
    image: Option<Seq<u8>>,
) -> RequestView {
    match image {
        Some(data) => RequestView {
            url: "https://api.telegram.org/bot"@ + token + "/sendPhoto"@,
            bearer_token: None,
            encoding: BodyEncoding::Multipart,
            fields: seq![("chat_id"@, chat_id), ("caption"@, message)],
            file: Some(("photo"@, "detection.jpg"@, "image/jpeg"@, data)),
        },
        None => RequestView {
            url: "https://api.telegram.org/bot"@ + token + "/sendMessage"@,
            bearer_token: None,
            encoding: BodyEncoding::UrlEncoded,
            fields: seq![("chat_id"@, chat_id), ("text"@, message), ("parse_mode"@, "HTML"@)],
            file: None,
        },
    }
}

/// The line that records the failure of a channel, where it failed.
pub open spec fn failure_line(channel: Channel, outcome: Option<Result<(), NotificationError>>) -> Seq<
    Seq<char>,
> {
    match outcome {
        Some(Err(e)) => seq![failure_prefix(channel) + e.describe()],
        _ => Seq::empty(),
    }
}

/// The lines that record the channels that failed, LINE Notify first.
pub open spec fn failure_lines(
    line: Option<Result<(), NotificationError>>,
    telegram: Option<Result<(), NotificationError>>,
) -> Seq<Seq<char>> {
    failure_line(Channel::Line, line) + failure_line(Channel::Telegram, telegram)
}

/// The texts of a list of lines.
pub open spec fn line_texts(lines: Seq<String>) -> Seq<Seq<char>> {
    Seq::new(lines.len(), |i: int| lines[i]@)
}

impl NotificationError {
    /// The error in words.
    pub open spec fn describe(self) -> Seq<char> {
        match self {
            NotificationError::ConfigError(m) => "Configuration error: "@ + m@,
            NotificationError::ApiError(m) => "API request failed: "@ + m@,
            NotificationError::ImageError(m) => "Failed to process image: "@ + m@,
        }
    }

    /// The error in words.
    pub fn message(&self) -> (r: String)
        ensures
            r@ == self.describe(),
    {
        match self {
            NotificationError::ConfigError(m) => String::from_str("Configuration error: ").concat(
                m.as_str(),
            ),
            NotificationError::ApiError(m) => String::from_str("API request failed: ").concat(
                m.as_str(),
            ),
            NotificationError::ImageError(m) => String::from_str(
                "Failed to process image: ",
            ).concat(m.as_str()),
        }
    }
}

/// The label of an access status.
pub fn status_text(status: AccessStatus) -> (r: &'static str)
    ensures
        r@ == status_label(status),
{
    match status {
        AccessStatus::Allowed => "✅ Allowed",
        AccessStatus::Denied => "❌ Denied",
        AccessStatus::Suspicious => "⚠️ Suspicious",
    }
}

/// Puts the text of an alert together from its parts.
pub fn compose_message(plate: &str, status: AccessStatus, confidence: u32, time: &str) -> (r:
    String)
    ensures
        r@ == message_text(plate@, status, confidence, time@),
{
    let mut out: String = String::from_str("🚗 License Plate Detection\n\nPlate: ");
    out.append(plate);
    out.append("\nStatus: ");
    out.append(status_text(status));
    out.append("\nConfidence: ");
    push_percent(&mut out, confidence);
    out.append("%\nTime: ");
    out.append(time);
    out
}

/// What a channel's answer means: an answer with a success status is
/// success; no answer, or an answer with another status, is an `ApiError`,
/// which carries the body of the answer where it could be read.
pub fn delivery_outcome(channel: Channel, delivery: Delivery) -> (r: Result<(), NotificationError>)
    ensures
        match delivery {
            Delivery::TransportFailed(cause) => r matches Err(NotificationError::ApiError(m))
                && m@ == cause@,
            Delivery::Responded { success, body } => {
                if success {
                    r is Ok
                } else {
                    r matches Err(NotificationError::ApiError(m)) && m@ == api_error_prefix(
                        channel,
                    ) + (match body {
                        Some(text) => text@,
                        None => "Unknown error"@,
                    })
                }
            },
        },
{
    match delivery {
        Delivery::TransportFailed(cause) => Err(NotificationError::ApiError(cause)),
        Delivery::Responded { success, body } => {
            if success {
                return Ok(());
            }
            let prefix: &str = match channel {
                Channel::Line => "LINE Notify API error: ",
                Channel::Telegram => "Telegram API error: ",
            };
            let text: String = match body {
                Some(text) => text,
                None => String::from_str("Unknown error"),
            };
            Err(NotificationError::ApiError(String::from_str(prefix).concat(text.as_str())))
        },
    }
}

/// Concludes an alert from what became of each channel, `None` standing
/// for a channel that was not attempted. Delivery is best effort: the alert
/// succeeds whatever the channels did, and each failure is put on record.
pub fn alert_report(
    line: Option<Result<(), NotificationError>>,
    telegram: Option<Result<(), NotificationError>>,
) -> (report: AlertReport)
    ensures
        report.result is Ok,
        line_texts(report.failures@) == failure_lines(line, telegram),
{
    let mut failures: Vec<String> = Vec::new();
    match &line {
        Some(Err(e)) => {
            let text: String = e.message();
            failures.push(
                String::from_str("Failed to send LINE notification: ").concat(text.as_str()),
            );
        },
        _ => {},
    }
    proof {
        assert(line_texts(failures@) =~= failure_line(Channel::Line, line));
    }
    match &telegram {
        Some(Err(e)) => {
            let text: String = e.message();
            failures.push(
                String::from_str("Failed to send Telegram message: ").concat(text.as_str()),
            );
        },
        _ => {},
    }
    proof {
        assert(line_texts(failures@) =~= failure_lines(line, telegram));
    }
    AlertReport { result: Ok(()), failures }
}

fn text_field(name: &str, value: &str) -> (r: TextField)
    ensures
        r.name@ == name@,
        r.value@ == value@,
{
    TextField { name: String::from_str(name), value: String::from_str(value) }
}

fn jpeg_part(name: &str, data: Vec<u8>) -> (r: FilePart)
    ensures
        r.name@ == name@,
        r.file_name@ == "detection.jpg"@,
        r.mime_type@ == "image/jpeg"@,
        r.data@ == data@,
{
    FilePart {
        name: String::from_str(name),
        file_name: String::from_str("detection.jpg"),
        mime_type: String::from_str("image/jpeg"),
        data,
    }
}

impl NotificationService {
    pub fn new(
        line_token: Option<String>,
        telegram_token: Option<String>,
        telegram_chat_id: Option<String>,
    ) -> (r: NotificationService)
        ensures
            r.line_token == line_token,
            r.telegram_token == telegram_token,
            r.telegram_chat_id == telegram_chat_id,
    {
        NotificationService { line_token, telegram_token, telegram_chat_id }
    }

    /// LINE Notify is attempted when its token is there.
    pub open spec fn line_configured(&self) -> bool {
        self.line_token is Some
    }

    /// Telegram is attempted when both its token and its chat are there.
    pub open spec fn telegram_configured(&self) -> bool {
        self.telegram_token is Some && self.telegram_chat_id is Some
    }

    /// The text of the alert for an event.
    pub fn format_message(&self, event: &DetectionEvent) -> (r: String)
        ensures
            r@ == event_message(*event),
    {
        let time: String = match format_utc(event.timestamp, "%Y-%m-%d %H:%M:%S") {
            Some(text) => text,
            None => String::new(),
        };
        compose_message(
            event.plate_number.as_str(),
            event.access_status,
            event.confidence,
            time.as_str(),
        )
    }

    /// What to attempt for an event: the message, and each channel whose
    /// credentials are there. A channel without credentials is left out.
    pub fn send_alert(&self, event: &DetectionEvent) -> (plan: AlertPlan)
        ensures
            plan.message@ == event_message(*event),
            plan.line == self.line_configured(),
            plan.telegram == self.telegram_configured(),
    {
        AlertPlan {
            message: self.format_message(event),
            line: self.line_token.is_some(),
            telegram: self.telegram_token.is_some() && self.telegram_chat_id.is_some(),
        }
    }

    /// The request that carries `message` to LINE Notify, with the image
    /// where one was read. Without a token, and with an image that could not
    /// be read, there is no request.
    pub fn send_line_notify(&self, message: &str, image: Option<Result<Vec<u8>, String>>) -> (r:
        Result<HttpRequest, NotificationError>)
        ensures
            match (self.line_token, image) {
                (None, _) => r matches Err(NotificationError::ConfigError(m)) && m@
                    == "LINE Notify token not configured"@,
                (Some(_), Some(Err(cause))) => r matches Err(NotificationError::ImageError(m))
                    && m@ == cause@,
                (Some(token), Some(Ok(data))) => r matches Ok(request) && request@ == line_request(
                    token@,
                    message@,
                    Some(data@),
                ),
                (Some(token), None) => r matches Ok(request) && request@ == line_request(
                    token@,
                    message@,
                    None,
                ),
            },
    {
        let token: &String = match &self.line_token {
            Some(token) => token,
            None => {
                return Err(
                    NotificationError::ConfigError(
                        String::from_str("LINE Notify token not configured"),
                    ),
                );
            },
        };
        let file: Option<FilePart> = match image {
            Some(Err(cause)) => {
                return Err(NotificationError::ImageError(cause));
            },
            Some(Ok(data)) => Some(jpeg_part("imageFile", data)),
            None => None,
        };
        let mut fields: Vec<TextField> = Vec::new();
        fields.push(text_field("message", message));
        let request = HttpRequest {
            url: String::from_str("https://notify-api.line.me/api/notify"),
            bearer_token: Some(token.clone()),
            encoding: BodyEncoding::Multipart,
            fields,
            file,
        };
        proof {
            assert(request@.fields =~= seq![("message"@, message@)]);
        }
        Ok(request)
    }

    /// The request that carries `message` to Telegram: a captioned photo
    /// where an image was read, a text message where there is none. Without
    /// token or chat, and with an image that could not be read, there is no
    /// request.
    pub fn send_telegram(&self, message: &str, image: Option<Result<Vec<u8>, String>>) -> (r:
        Result<HttpRequest, NotificationError>)
        ensures
            match (self.telegram_token, self.telegram_chat_id, image) {
                (None, _, _) => r matches Err(NotificationError::ConfigError(m)) && m@
                    == "Telegram token not configured"@,
                (Some(_), None, _) => r matches Err(NotificationError::ConfigError(m)) && m@
                    == "Telegram chat ID not configured"@,
                (Some(_), Some(_), Some(Err(cause))) => r matches Err(
                    NotificationError::ImageError(m),
                ) && m@ == cause@,
                (Some(token), Some(chat_id), Some(Ok(data))) => r matches Ok(request) && request@
                    == telegram_request(token@, chat_id@, message@, Some(data@)),
                (Some(token), Some(chat_id), None) => r matches Ok(request) && request@
                    == telegram_request(token@, chat_id@, message@, None),
            },
    {
        let token: &String = match &self.telegram_token {
            Some(token) => token,
            None => {
                return Err(
                    NotificationError::ConfigError(
                        String::from_str("Telegram token not configured"),
                    ),
                );
            },
        };
        let chat_id: &String = match &self.telegram_chat_id {
            Some(chat_id) => chat_id,
            None => {
                return Err(
                    NotificationError::ConfigError(
                        String::from_str("Telegram chat ID not configured"),
                    ),
                );
            },
        };
        let base: String = String::from_str("https://api.telegram.org/bot").concat(token.as_str());
        let mut fields: Vec<TextField> = Vec::new();
        fields.push(text_field("chat_id", chat_id.as_str()));
        match image {
            Some(Err(cause)) => Err(NotificationError::ImageError(cause)),
            Some(Ok(data)) => {
                fields.push(text_field("caption", message));
                let request = HttpRequest {
                    url: base.concat("/sendPhoto"),
                    bearer_token: None,
                    encoding: BodyEncoding::Multipart,
                    fields,
                    file: Some(jpeg_part("photo", data)),
                };
                proof {
                    assert(request@.fields =~= seq![("chat_id"@, chat_id@), ("caption"@, message@)]);
                }
                Ok(request)
            },
            None => {
                fields.push(text_field("text", message));
                fields.push(text_field("parse_mode", "HTML"));
                let request = HttpRequest {
                    url: base.concat("/sendMessage"),
                    bearer_token: None,
                    encoding: BodyEncoding::UrlEncoded,
                    fields,
                    file: None,
                };
                proof {
                    assert(request@.fields =~= seq![
                        ("chat_id"@, chat_id@),
                        ("text"@, message@),
                        ("parse_mode"@, "HTML"@),
                    ]);
                }
                Ok(request)
            },
        }
    }
}

} // verus!
