//! Telemetry demultiplexing: turning broadcast device lines into typed
//! feedback samples according to the currently selected feedback mode.
//!
//! The persistent feedback task feeds every broadcast line through
//! [`parse_feedback_line`]; a line that does not fit the active mode's
//! format is noise to be skipped, and the reserved disconnect sentinel
//! ends the task.

use vstd::prelude::*;
use crate::decimal::Decimal;
use crate::text;

verus! {

/// Which telemetry channel the device is currently expected to stream.
#[derive(Debug, Clone, Copy, PartialEq, Eq, Structural)]
pub enum MotorFeedbackState {
    Off,
    Speed,
    Position,
    Current,
    Udc,
}

/// The reserved line the transport injects into its broadcast when the
/// physical link is lost; the device never produces it.
pub open spec fn disconnect_sentinel_spec() -> Seq<char> {
    "__DISCONNECTED__"@
}

/// Exec form of [`disconnect_sentinel_spec`].
pub fn disconnect_sentinel() -> (r: &'static str)
    ensures
        r@ == disconnect_sentinel_spec(),
{
    "__DISCONNECTED__"
}

/// A value tagged with the moment it was observed and the channel name
/// it belongs to.
#[derive(Debug, Clone)]
pub struct Timestamped<T> {
    /// Milliseconds since the Unix epoch.
    pub timestamp: u64,
    pub value: T,
    pub kind: String,
}

/// Relies on std::time::SystemTime::now for the clock reading, converted
/// to whole milliseconds since the Unix epoch; nothing can be promised
/// of it.
#[verifier::external_body]
fn now_millis() -> u64 {
    match std::time::SystemTime::now().duration_since(std::time::UNIX_EPOCH) {
        Ok(d) => d.as_millis() as u64,
        Err(_) => 0,
    }
}

impl<T> Timestamped<T> {
    /// Stamps `value` with the current wall clock.
    pub fn new(value: T, kind: String) -> (r: Self)
        ensures
            r.value == value,
            r.kind == kind,
    {
        Timestamped { timestamp: now_millis(), value, kind }
    }
}

/// What one broadcast line means under a feedback mode.
pub ghost enum FeedbackView {
    Disconnected,
    Ignored,
    Speed(Seq<char>),
    Position(Seq<char>),
    Current(Seq<char>, Seq<char>, Seq<char>),
    Udc(Seq<char>),
}

/// Typed outcome of demultiplexing one line: the disconnect sentinel, a
/// sample of the active channel, or a line to skip.
pub enum FeedbackLine {
    Disconnected,
    Ignored,
    Speed(Decimal),
    Position(Decimal),
    Current(Decimal, Decimal, Decimal),
    Udc(Decimal),
}

impl View for FeedbackLine {
    type V = FeedbackView;

    open spec fn view(&self) -> FeedbackView {
        match self {
            FeedbackLine::Disconnected => FeedbackView::Disconnected,
            FeedbackLine::Ignored => FeedbackView::Ignored,
            FeedbackLine::Speed(v) => FeedbackView::Speed(v@),
            FeedbackLine::Position(v) => FeedbackView::Position(v@),
            FeedbackLine::Current(a, b, c) => FeedbackView::Current(a@, b@, c@),
            FeedbackLine::Udc(v) => FeedbackView::Udc(v@),
        }
    }
}

/// Splitting an `iabc` value at its two commas, each part trimmed.
pub open spec fn split3(val: Seq<char>) -> Option<(Seq<char>, Seq<char>, Seq<char>)> {
    let p = text::find_char_spec(val, ',');
    if p < 0 {
        None
    } else {
        let rest = val.subrange(p + 1, val.len() as int);
        let q = text::find_char_spec(rest, ',');
        if q < 0 {
            None
        } else {
            Some(
                (
                    text::trim_spec(val.subrange(0, p)),
                    text::trim_spec(rest.subrange(0, q)),
                    text::trim_spec(rest.subrange(q + 1, rest.len() as int)),
                ),
            )
        }
    }
}

/// The exact meaning of one line under `mode`.
pub open spec fn feedback_line_spec(mode: MotorFeedbackState, line: Seq<char>) -> FeedbackView {
    let t = text::trim_spec(line);
    if t.len() == 0 {
        FeedbackView::Ignored
    } else if t == disconnect_sentinel_spec() {
        FeedbackView::Disconnected
    } else {
        match mode {
            MotorFeedbackState::Off => FeedbackView::Ignored,
            MotorFeedbackState::Speed => {
                if text::has_key(t, "speed:"@) && text::is_decimal(
                    text::key_value(t, "speed:"@),
                ) {
                    FeedbackView::Speed(text::key_value(t, "speed:"@))
                } else {
                    FeedbackView::Ignored
                }
            },
            MotorFeedbackState::Position => {
                if text::has_key(t, "position:"@) && text::is_decimal(
                    text::key_value(t, "position:"@),
                ) {
                    FeedbackView::Position(text::key_value(t, "position:"@))
                } else {
                    FeedbackView::Ignored
                }
            },
            MotorFeedbackState::Current => {
                if text::has_key(t, "iabc:"@) && split3(text::key_value(t, "iabc:"@)) is Some {
                    let parts = split3(text::key_value(t, "iabc:"@)).unwrap();
                    if text::is_decimal(parts.0) && text::is_decimal(parts.1)
                        && text::is_decimal(parts.2) {
                        FeedbackView::Current(parts.0, parts.1, parts.2)
                    } else {
                        FeedbackView::Ignored
                    }
                } else {
                    FeedbackView::Ignored
                }
            },
            MotorFeedbackState::Udc => {
                if text::has_key(t, "udc:"@) && text::is_decimal(text::key_value(t, "udc:"@)) {
                    FeedbackView::Udc(text::key_value(t, "udc:"@))
                } else {
                    FeedbackView::Ignored
                }
            },
        }
    }
}

/// Parses one decimal-valued telemetry line.
fn decimal_sample<'a>(t: &'a str, key: &str) -> (r: Option<Decimal>)
    ensures
        r is Some <==> (text::has_key(t@, key@) && text::is_decimal(text::key_value(t@, key@))),
        r is Some ==> r.unwrap()@ == text::key_value(t@, key@),
{
    match text::key_value_of(t, key) {
        Some(val) => Decimal::from_text(val.to_owned()),
        None => None,
    }
}

/// Demultiplexes one broadcast line against the active feedback mode.
pub fn parse_feedback_line(mode: MotorFeedbackState, line: &str) -> (r: FeedbackLine)
    ensures
        r@ == feedback_line_spec(mode, line@),
{
    let t = text::trim(line);
    if t.unicode_len() == 0 {
        return FeedbackLine::Ignored;
    }
    if text::str_eq(t, "__DISCONNECTED__") {
        return FeedbackLine::Disconnected;
    }
    match mode {
        MotorFeedbackState::Off => FeedbackLine::Ignored,
        MotorFeedbackState::Speed => {
            match decimal_sample(t, "speed:") {
                Some(d) => FeedbackLine::Speed(d),
                None => FeedbackLine::Ignored,
            }
        },
        MotorFeedbackState::Position => {
            match decimal_sample(t, "position:") {
                Some(d) => FeedbackLine::Position(d),
                None => FeedbackLine::Ignored,
            }
        },
        MotorFeedbackState::Udc => {
            match decimal_sample(t, "udc:") {
                Some(d) => FeedbackLine::Udc(d),
                None => FeedbackLine::Ignored,
            }
        },
        MotorFeedbackState::Current => {
            match text::key_value_of(t, "iabc:") {
                Some(val) => parse_currents(val),
                None => FeedbackLine::Ignored,
            }
        },
    }
}

/// Parses the three comma-separated phase currents of an `iabc` value.
fn parse_currents(val: &str) -> (r: FeedbackLine)
    ensures
        r@ == ({
            if split3(val@) is Some {
                let parts = split3(val@).unwrap();
                if text::is_decimal(parts.0) && text::is_decimal(parts.1) && text::is_decimal(
                    parts.2,
                ) {
                    FeedbackView::Current(parts.0, parts.1, parts.2)
                } else {
                    FeedbackView::Ignored
                }
            } else {
                FeedbackView::Ignored
            }
        }),
{
    let n = val.unicode_len();
    match text::find_char(val, ',') {
        Some(p) => {
            let a_raw = val.substring_char(0, p);
            let rest = val.substring_char(p + 1, n);
            let m = rest.unicode_len();
            match text::find_char(rest, ',') {
                Some(q) => {
                    let b_raw = rest.substring_char(0, q);
                    let c_raw = rest.substring_char(q + 1, m);
                    let a = Decimal::from_text(text::trim(a_raw).to_owned());
                    let b = Decimal::from_text(text::trim(b_raw).to_owned());
                    let c = Decimal::from_text(text::trim(c_raw).to_owned());
                    match (a, b, c) {
                        (Some(a), Some(b), Some(c)) => FeedbackLine::Current(a, b, c),
                        _ => FeedbackLine::Ignored,
                    }
                },
                None => FeedbackLine::Ignored,
            }
        },
        None => FeedbackLine::Ignored,
    }
}

} // verus!
