//! Streaming parser for the device's configuration dump.
//!
//! After a `get_config` request the device emits section headers
//! (`position_pid:`, `speed_pi:`, `i_pi:`, `encoder:`) and `key: value`
//! lines interpreted in the section the last header opened (top-level
//! before any header). The parser is fed one line at a time, remembers
//! the section cursor alongside the accumulated fields, ignores unknown
//! keys, and lets a later repetition of a key overwrite the earlier
//! value. [`ConfigParser::parse_line`]'s contract is the exact transition
//! function [`parse_line_spec`]; everything else is stated over it.

use vstd::prelude::*;
use vstd::string::StrSliceExecFns;
use crate::decimal::Decimal;
use crate::text;

verus! {

/// Section cursor: which part of the dump the upcoming `key: value`
/// lines belong to.
#[derive(Debug, Clone, Copy, PartialEq, Eq, Structural)]
pub enum Section {
    Top,
    PositionPid,
    SpeedPi,
    IPi,
    Encoder,
}

/// Mathematical state of the parser: the section cursor and one optional
/// value per field of the dump.
#[verifier::ext_equal]
pub ghost struct ParserView {
    pub section: Section,
    pub id: Option<u8>,
    pub udc: Option<Seq<char>>,
    pub idq_filter_fc: Option<Seq<char>>,
    pub pos_kp: Option<Seq<char>>,
    pub pos_ki: Option<Seq<char>>,
    pub pos_kd: Option<Seq<char>>,
    pub pos_maxoutput: Option<Seq<char>>,
    pub spd_kp: Option<Seq<char>>,
    pub spd_ki: Option<Seq<char>>,
    pub spd_maxoutput: Option<Seq<char>>,
    pub id_kp: Option<Seq<char>>,
    pub id_ki: Option<Seq<char>>,
    pub iq_kp: Option<Seq<char>>,
    pub iq_ki: Option<Seq<char>>,
    pub pole_pairs: Option<u32>,
    pub encoder_direct: Option<i32>,
    pub encoder_offset: Option<Seq<char>>,
    pub encoder_type: Option<Seq<char>>,
}

/// The state of a freshly created parser.
pub open spec fn init_view() -> ParserView {
    ParserView {
        section: Section::Top,
        id: None,
        udc: None,
        idq_filter_fc: None,
        pos_kp: None,
        pos_ki: None,
        pos_kd: None,
        pos_maxoutput: None,
        spd_kp: None,
        spd_ki: None,
        spd_maxoutput: None,
        id_kp: None,
        id_ki: None,
        iq_kp: None,
        iq_ki: None,
        pole_pairs: None,
        encoder_direct: None,
        encoder_offset: None,
        encoder_type: None,
    }
}

/// Last-write-wins update of a fractional field.
pub open spec fn set_decimal(cur: Option<Seq<char>>, t: Seq<char>, key: Seq<char>) -> Option<
    Seq<char>,
> {
    if text::has_key(t, key) && text::is_decimal(text::key_value(t, key)) {
        Some(text::key_value(t, key))
    } else {
        cur
    }
}

pub open spec fn set_u8(cur: Option<u8>, t: Seq<char>, key: Seq<char>) -> Option<u8> {
    let val = text::key_value(t, key);
    if text::has_key(t, key) && val.len() > 0 && text::all_digits(val) && text::dec_value(val)
        <= u8::MAX {
        Some(text::dec_value(val) as u8)
    } else {
        cur
    }
}

pub open spec fn set_u32(cur: Option<u32>, t: Seq<char>, key: Seq<char>) -> Option<u32> {
    let val = text::key_value(t, key);
    if text::has_key(t, key) && val.len() > 0 && text::all_digits(val) && text::dec_value(val)
        <= u32::MAX {
        Some(text::dec_value(val) as u32)
    } else {
        cur
    }
}

pub open spec fn set_i32(cur: Option<i32>, t: Seq<char>, key: Seq<char>) -> Option<i32> {
    let val = text::key_value(t, key);
    if text::has_key(t, key) && text::is_signed_int(val) && i32::MIN <= text::signed_value(val)
        <= i32::MAX {
        Some(text::signed_value(val) as i32)
    } else {
        cur
    }
}

/// A single word without inner whitespace.
pub open spec fn is_token(val: Seq<char>) -> bool {
    val.len() > 0 && forall|i: int| 0 <= i < val.len() ==> !text::is_space(#[trigger] val[i])
}

pub open spec fn set_token(cur: Option<Seq<char>>, t: Seq<char>, key: Seq<char>) -> Option<
    Seq<char>,
> {
    if text::has_key(t, key) && is_token(text::key_value(t, key)) {
        Some(text::key_value(t, key))
    } else {
        cur
    }
}

pub open spec fn step_top(v: ParserView, t: Seq<char>) -> ParserView {
    ParserView {
        id: set_u8(v.id, t, "id:"@),
        udc: set_decimal(v.udc, t, "udc:"@),
        idq_filter_fc: set_decimal(v.idq_filter_fc, t, "idq_filter_fc:"@),
        ..v
    }
}

pub open spec fn step_position_pid(v: ParserView, t: Seq<char>) -> ParserView {
    ParserView {
        pos_kp: set_decimal(v.pos_kp, t, "Kp:"@),
        pos_ki: set_decimal(v.pos_ki, t, "Ki:"@),
        pos_kd: set_decimal(v.pos_kd, t, "Kd:"@),
        pos_maxoutput: set_decimal(v.pos_maxoutput, t, "maxoutput:"@),
        ..v
    }
}

pub open spec fn step_speed_pi(v: ParserView, t: Seq<char>) -> ParserView {
    ParserView {
        spd_kp: set_decimal(v.spd_kp, t, "Kp:"@),
        spd_ki: set_decimal(v.spd_ki, t, "Ki:"@),
        spd_maxoutput: set_decimal(v.spd_maxoutput, t, "maxoutput:"@),
        ..v
    }
}

pub open spec fn step_i_pi(v: ParserView, t: Seq<char>) -> ParserView {
    ParserView {
        id_kp: set_decimal(v.id_kp, t, "id_Kp:"@),
        id_ki: set_decimal(v.id_ki, t, "id_Ki:"@),
        iq_kp: set_decimal(v.iq_kp, t, "iq_Kp:"@),
        iq_ki: set_decimal(v.iq_ki, t, "iq_Ki:"@),
        ..v
    }
}

pub open spec fn step_encoder(v: ParserView, t: Seq<char>) -> ParserView {
    ParserView {
        pole_pairs: set_u32(v.pole_pairs, t, "pole_pairs:"@),
        encoder_direct: set_i32(v.encoder_direct, t, "encoder_direct:"@),
        encoder_offset: set_decimal(v.encoder_offset, t, "encoder_offset:"@),
        encoder_type: set_token(v.encoder_type, t, "encoder_type:"@),
        ..v
    }
}

/// The exact effect of feeding one line to the parser.
pub open spec fn parse_line_spec(v: ParserView, line: Seq<char>) -> ParserView {
    let t = text::trim_spec(line);
    if t == "position_pid:"@ {
        ParserView { section: Section::PositionPid, ..v }
    } else if t == "speed_pi:"@ {
        ParserView { section: Section::SpeedPi, ..v }
    } else if t == "i_pi:"@ {
        ParserView { section: Section::IPi, ..v }
    } else if t == "encoder:"@ {
        ParserView { section: Section::Encoder, ..v }
    } else {
        match v.section {
            Section::Top => step_top(v, t),
            Section::PositionPid => step_position_pid(v, t),
            Section::SpeedPi => step_speed_pi(v, t),
            Section::IPi => step_i_pi(v, t),
            Section::Encoder => step_encoder(v, t),
        }
    }
}

/// Every required field of every section has been seen.
pub open spec fn complete(v: ParserView) -> bool {
    &&& v.id is Some
    &&& v.udc is Some
    &&& v.idq_filter_fc is Some
    &&& v.pos_kp is Some
    &&& v.pos_ki is Some
    &&& v.pos_kd is Some
    &&& v.pos_maxoutput is Some
    &&& v.spd_kp is Some
    &&& v.spd_ki is Some
    &&& v.spd_maxoutput is Some
    &&& v.id_kp is Some
    &&& v.id_ki is Some
    &&& v.iq_kp is Some
    &&& v.iq_ki is Some
    &&& v.pole_pairs is Some
    &&& v.encoder_direct is Some
    &&& v.encoder_offset is Some
    &&& v.encoder_type is Some
}

/// The first reason conversion to a snapshot fails, if any: a missing
/// field, an unknown encoder type, or a direction other than `1` / `-1`.
pub open spec fn convert_error(v: ParserView) -> Option<Seq<char>> {
    if v.id is None {
        Some("id missing"@)
    } else if v.udc is None {
        Some("udc missing"@)
    } else if v.idq_filter_fc is None {
        Some("idq_filter_fc missing"@)
    } else if v.pos_kp is None {
        Some("position_pid.kp missing"@)
    } else if v.pos_ki is None {
        Some("position_pid.ki missing"@)
    } else if v.pos_kd is None {
        Some("position_pid.kd missing"@)
    } else if v.pos_maxoutput is None {
        Some("position_pid.maxoutput missing"@)
    } else if v.spd_kp is None {
        Some("speed_pi.kp missing"@)
    } else if v.spd_ki is None {
        Some("speed_pi.ki missing"@)
    } else if v.spd_maxoutput is None {
        Some("speed_pi.maxoutput missing"@)
    } else if v.id_kp is None {
        Some("i_pi.id_kp missing"@)
    } else if v.id_ki is None {
        Some("i_pi.id_ki missing"@)
    } else if v.iq_kp is None {
        Some("i_pi.iq_kp missing"@)
    } else if v.iq_ki is None {
        Some("i_pi.iq_ki missing"@)
    } else if v.encoder_type is None {
        Some("encoder.encoder_type missing"@)
    } else if v.encoder_type.unwrap() != "MT6701"@ {
        Some("invalid encoder_type"@)
    } else if v.encoder_direct is None {
        Some("encoder.encoder_direct missing"@)
    } else if v.encoder_direct.unwrap() != 1 && v.encoder_direct.unwrap() != -1i32 {
        Some("invalid encoder_direct"@)
    } else if v.pole_pairs is None {
        Some("encoder.pole_pairs missing"@)
    } else if v.encoder_offset is None {
        Some("encoder.encoder_offset missing"@)
    } else {
        None
    }
}

/// Position-loop PID gains and output clamp.
#[derive(Debug, Clone)]
pub struct PositionPIDConfig {
    pub kp: Decimal,
    pub ki: Decimal,
    pub kd: Decimal,
    pub output_max: Decimal,
}

/// Speed-loop PI gains and output clamp.
#[derive(Debug, Clone)]
pub struct SpeedPIConfig {
    pub kp: Decimal,
    pub ki: Decimal,
    pub output_max: Decimal,
}

/// Current-loop PI gains.
#[derive(Debug, Clone)]
pub struct CurrentPIConfig {
    pub kp: Decimal,
    pub ki: Decimal,
}

/// Rotation sense of the encoder relative to the motor: the device
/// writes it as `1` (same) or `-1` (reverse).
#[derive(Debug, Clone, Copy, PartialEq, Eq, Structural)]
pub enum EncoderDirection {
    Same,
    Reverse,
}

/// Known encoder models.
#[derive(Debug, Clone, Copy, PartialEq, Eq, Structural)]
pub enum EncoderType {
    MT6701,
}

/// Encoder geometry and wiring.
#[derive(Debug, Clone)]
pub struct EncoderConfig {
    pub pole_pairs: u32,
    pub encoder_direction: EncoderDirection,
    pub encoder_offset: Decimal,
    pub encoder_type: EncoderType,
}

/// A complete, validated configuration snapshot.
#[derive(Debug, Clone)]
pub struct MotorConfig {
    pub id: u8,
    pub udc: Decimal,
    pub position_pid: PositionPIDConfig,
    pub speed_pi: SpeedPIConfig,
    pub current_id_pi: CurrentPIConfig,
    pub current_iq_pi: CurrentPIConfig,
    pub fc: Decimal,
    pub encoder_config: EncoderConfig,
}

/// Accumulates the fields of a configuration dump line by line.
pub struct ConfigParser {
    section: Section,
    id: Option<u8>,
    udc: Option<Decimal>,
    idq_filter_fc: Option<Decimal>,
    pos_kp: Option<Decimal>,
    pos_ki: Option<Decimal>,
    pos_kd: Option<Decimal>,
    pos_maxoutput: Option<Decimal>,
    spd_kp: Option<Decimal>,
    spd_ki: Option<Decimal>,
    spd_maxoutput: Option<Decimal>,
    id_kp: Option<Decimal>,
    id_ki: Option<Decimal>,
    iq_kp: Option<Decimal>,
    iq_ki: Option<Decimal>,
    pole_pairs: Option<u32>,
    encoder_direct: Option<i32>,
    encoder_offset: Option<Decimal>,
    encoder_type: Option<String>,
}

pub open spec fn view_of_decimal(d: Option<Decimal>) -> Option<Seq<char>> {
    match d {
        Some(x) => Some(x@),
        None => None,
    }
}

pub open spec fn view_of_string(d: Option<String>) -> Option<Seq<char>> {
    match d {
        Some(x) => Some(x@),
        None => None,
    }
}

impl View for ConfigParser {
    type V = ParserView;

    closed spec fn view(&self) -> ParserView {
        ParserView {
            section: self.section,
            id: self.id,
            udc: view_of_decimal(self.udc),
            idq_filter_fc: view_of_decimal(self.idq_filter_fc),
            pos_kp: view_of_decimal(self.pos_kp),
            pos_ki: view_of_decimal(self.pos_ki),
            pos_kd: view_of_decimal(self.pos_kd),
            pos_maxoutput: view_of_decimal(self.pos_maxoutput),
            spd_kp: view_of_decimal(self.spd_kp),
            spd_ki: view_of_decimal(self.spd_ki),
            spd_maxoutput: view_of_decimal(self.spd_maxoutput),
            id_kp: view_of_decimal(self.id_kp),
            id_ki: view_of_decimal(self.id_ki),
            iq_kp: view_of_decimal(self.iq_kp),
            iq_ki: view_of_decimal(self.iq_ki),
            pole_pairs: self.pole_pairs,
            encoder_direct: self.encoder_direct,
            encoder_offset: view_of_decimal(self.encoder_offset),
            encoder_type: view_of_string(self.encoder_type),
        }
    }
}

impl ConfigParser {
    /// A parser with no field seen and the cursor at the top level.
    pub fn new() -> (r: ConfigParser)
        ensures
            r@ == init_view(),
    {
        let r = ConfigParser {
            section: Section::Top,
            id: None,
            udc: None,
            idq_filter_fc: None,
            pos_kp: None,
            pos_ki: None,
            pos_kd: None,
            pos_maxoutput: None,
            spd_kp: None,
            spd_ki: None,
            spd_maxoutput: None,
            id_kp: None,
            id_ki: None,
            iq_kp: None,
            iq_ki: None,
            pole_pairs: None,
            encoder_direct: None,
            encoder_offset: None,
            encoder_type: None,
        };
        proof {
            assert(r@ =~= init_view());
        }
        r
    }

    /// Feeds one device line, switching the section on a header and
    /// otherwise recording the line's key in the current section.
    pub fn parse_line(&mut self, line: &str)
        ensures
            final(self)@ == parse_line_spec(old(self)@, line@),
    {
        let t = text::trim(line);
        if text::str_eq(t, "position_pid:") {
            self.section = Section::PositionPid;
            proof {
                assert(self@ =~= parse_line_spec(old(self)@, line@));
            }
        } else if text::str_eq(t, "speed_pi:") {
            self.section = Section::SpeedPi;
            proof {
                assert(self@ =~= parse_line_spec(old(self)@, line@));
            }
        } else if text::str_eq(t, "i_pi:") {
            self.section = Section::IPi;
            proof {
                assert(self@ =~= parse_line_spec(old(self)@, line@));
            }
        } else if text::str_eq(t, "encoder:") {
            self.section = Section::Encoder;
            proof {
                assert(self@ =~= parse_line_spec(old(self)@, line@));
            }
        } else {
            match self.section {
                Section::Top => {
                    if let Some(val) = text::key_value_of(t, "id:") {
                        if let Some(v) = text::parse_u8(val) {
                            self.id = Some(v);
                        }
                    }
                    if let Some(val) = text::key_value_of(t, "udc:") {
                        if let Some(d) = Decimal::from_text(val.to_owned()) {
                            self.udc = Some(d);
                        }
                    }
                    if let Some(val) = text::key_value_of(t, "idq_filter_fc:") {
                        if let Some(d) = Decimal::from_text(val.to_owned()) {
                            self.idq_filter_fc = Some(d);
                        }
                    }
                    proof {
                        assert(self@ =~= parse_line_spec(old(self)@, line@));
                    }
                },
                Section::PositionPid => {
                    if let Some(val) = text::key_value_of(t, "Kp:") {
                        if let Some(d) = Decimal::from_text(val.to_owned()) {
                            self.pos_kp = Some(d);
                        }
                    }
                    if let Some(val) = text::key_value_of(t, "Ki:") {
                        if let Some(d) = Decimal::from_text(val.to_owned()) {
                            self.pos_ki = Some(d);
                        }
                    }
                    if let Some(val) = text::key_value_of(t, "Kd:") {
                        if let Some(d) = Decimal::from_text(val.to_owned()) {
                            self.pos_kd = Some(d);
                        }
                    }
                    if let Some(val) = text::key_value_of(t, "maxoutput:") {
                        if let Some(d) = Decimal::from_text(val.to_owned()) {
                            self.pos_maxoutput = Some(d);
                        }
                    }
                    proof {
                        assert(self@ =~= parse_line_spec(old(self)@, line@));
                    }
                },
                Section::SpeedPi => {
                    if let Some(val) = text::key_value_of(t, "Kp:") {
                        if let Some(d) = Decimal::from_text(val.to_owned()) {
                            self.spd_kp = Some(d);
                        }
                    }
                    if let Some(val) = text::key_value_of(t, "Ki:") {
                        if let Some(d) = Decimal::from_text(val.to_owned()) {
                            self.spd_ki = Some(d);
                        }
                    }
                    if let Some(val) = text::key_value_of(t, "maxoutput:") {
                        if let Some(d) = Decimal::from_text(val.to_owned()) {
                            self.spd_maxoutput = Some(d);
                        }
                    }
                    proof {
                        assert(self@ =~= parse_line_spec(old(self)@, line@));
                    }
                },
                Section::IPi => {
                    if let Some(val) = text::key_value_of(t, "id_Kp:") {
                        if let Some(d) = Decimal::from_text(val.to_owned()) {
                            self.id_kp = Some(d);
                        }
                    }
                    if let Some(val) = text::key_value_of(t, "id_Ki:") {
                        if let Some(d) = Decimal::from_text(val.to_owned()) {
                            self.id_ki = Some(d);
                        }
                    }
                    if let Some(val) = text::key_value_of(t, "iq_Kp:") {
                        if let Some(d) = Decimal::from_text(val.to_owned()) {
                            self.iq_kp = Some(d);
                        }
                    }
                    if let Some(val) = text::key_value_of(t, "iq_Ki:") {
                        if let Some(d) = Decimal::from_text(val.to_owned()) {
                            self.iq_ki = Some(d);
                        }
                    }
                    proof {
                        assert(self@ =~= parse_line_spec(old(self)@, line@));
                    }
                },
                Section::Encoder => {
                    if let Some(val) = text::key_value_of(t, "pole_pairs:") {
                        if let Some(v) = text::parse_u32(val) {
                            self.pole_pairs = Some(v);
                        }
                    }
                    if let Some(val) = text::key_value_of(t, "encoder_direct:") {
                        if let Some(v) = text::parse_i32(val) {
                            self.encoder_direct = Some(v);
                        }
                    }
                    if let Some(val) = text::key_value_of(t, "encoder_offset:") {
                        if let Some(d) = Decimal::from_text(val.to_owned()) {
                            self.encoder_offset = Some(d);
                        }
                    }
                    if let Some(val) = text::key_value_of(t, "encoder_type:") {
                        if Self::token_str(val) {
                            self.encoder_type = Some(val.to_owned());
                        }
                    }
                    proof {
                        assert(self@ =~= parse_line_spec(old(self)@, line@));
                    }
                },
            }
        }
    }

    /// Whether `val` is a single word without inner whitespace.
    fn token_str(val: &str) -> (r: bool)
        ensures
            r == is_token(val@),
    {
        let n = val.unicode_len();
        if n == 0 {
            return false;
        }
        let mut i: usize = 0;
        while i < n
            invariant
                0 <= i <= n,
                n == val@.len(),
                forall|k: int| 0 <= k < i ==> !text::is_space(#[trigger] val@[k]),
            decreases n - i,
        {
            if text::space(val.get_char(i)) {
                return false;
            }
            i += 1;
        }
        true
    }

    /// Whether every required field has been seen at least once.
    pub fn is_complete(&self) -> (r: bool)
        ensures
            r == complete(self@),
    {
        self.id.is_some() && self.udc.is_some() && self.idq_filter_fc.is_some()
            && self.pos_kp.is_some() && self.pos_ki.is_some() && self.pos_kd.is_some()
            && self.pos_maxoutput.is_some() && self.spd_kp.is_some() && self.spd_ki.is_some()
            && self.spd_maxoutput.is_some() && self.id_kp.is_some() && self.id_ki.is_some()
            && self.iq_kp.is_some() && self.iq_ki.is_some() && self.pole_pairs.is_some()
            && self.encoder_direct.is_some() && self.encoder_offset.is_some()
            && self.encoder_type.is_some()
    }

    /// Validates the accumulated fields into a snapshot; fails with the
    /// first missing-field or invalid-enum reason of [`convert_error`].
    pub fn try_into_motor_config(&self) -> (r: Result<MotorConfig, &'static str>)
        ensures
            r is Ok <==> convert_error(self@) is None,
            r is Err ==> r->Err_0@ == convert_error(self@).unwrap(),
            r is Ok ==> {
                let c = r->Ok_0;
                &&& Some(c.id) == self@.id
                &&& Some(c.udc@) == self@.udc
                &&& Some(c.fc@) == self@.idq_filter_fc
                &&& Some(c.position_pid.kp@) == self@.pos_kp
                &&& Some(c.position_pid.ki@) == self@.pos_ki
                &&& Some(c.position_pid.kd@) == self@.pos_kd
                &&& Some(c.position_pid.output_max@) == self@.pos_maxoutput
                &&& Some(c.speed_pi.kp@) == self@.spd_kp
                &&& Some(c.speed_pi.ki@) == self@.spd_ki
                &&& Some(c.speed_pi.output_max@) == self@.spd_maxoutput
                &&& Some(c.current_id_pi.kp@) == self@.id_kp
                &&& Some(c.current_id_pi.ki@) == self@.id_ki
                &&& Some(c.current_iq_pi.kp@) == self@.iq_kp
                &&& Some(c.current_iq_pi.ki@) == self@.iq_ki
                &&& Some(c.encoder_config.pole_pairs) == self@.pole_pairs
                &&& Some(c.encoder_config.encoder_offset@) == self@.encoder_offset
                &&& self@.encoder_type == Some("MT6701"@)
                &&& c.encoder_config.encoder_type == EncoderType::MT6701
                &&& (c.encoder_config.encoder_direction == EncoderDirection::Same <==> self@
                    .encoder_direct == Some(1i32))
                &&& (c.encoder_config.encoder_direction == EncoderDirection::Reverse
                    <==> self@.encoder_direct == Some(-1i32))
            },
    {
        let id = match &self.id {
            Some(v) => *v,
            None => {
                return Err("id missing");
            },
        };
        let udc = match &self.udc {
            Some(v) => v.duplicate(),
            None => {
                return Err("udc missing");
            },
        };
        let fc = match &self.idq_filter_fc {
            Some(v) => v.duplicate(),
            None => {
                return Err("idq_filter_fc missing");
            },
        };
        let pos_kp = match &self.pos_kp {
            Some(v) => v.duplicate(),
            None => {
                return Err("position_pid.kp missing");
            },
        };
        let pos_ki = match &self.pos_ki {
            Some(v) => v.duplicate(),
            None => {
                return Err("position_pid.ki missing");
            },
        };
        let pos_kd = match &self.pos_kd {
            Some(v) => v.duplicate(),
            None => {
                return Err("position_pid.kd missing");
            },
        };
        let pos_max = match &self.pos_maxoutput {
            Some(v) => v.duplicate(),
            None => {
                return Err("position_pid.maxoutput missing");
            },
        };
        let spd_kp = match &self.spd_kp {
            Some(v) => v.duplicate(),
            None => {
                return Err("speed_pi.kp missing");
            },
        };
        let spd_ki = match &self.spd_ki {
            Some(v) => v.duplicate(),
            None => {
                return Err("speed_pi.ki missing");
            },
        };
        let spd_max = match &self.spd_maxoutput {
            Some(v) => v.duplicate(),
            None => {
                return Err("speed_pi.maxoutput missing");
            },
        };
        let id_kp = match &self.id_kp {
            Some(v) => v.duplicate(),
            None => {
                return Err("i_pi.id_kp missing");
            },
        };
        let id_ki = match &self.id_ki {
            Some(v) => v.duplicate(),
            None => {
                return Err("i_pi.id_ki missing");
            },
        };
        let iq_kp = match &self.iq_kp {
            Some(v) => v.duplicate(),
            None => {
                return Err("i_pi.iq_kp missing");
            },
        };
        let iq_ki = match &self.iq_ki {
            Some(v) => v.duplicate(),
            None => {
                return Err("i_pi.iq_ki missing");
            },
        };
        let encoder_type = match &self.encoder_type {
            Some(s) => {
                if text::str_eq(s.as_str(), "MT6701") {
                    EncoderType::MT6701
                } else {
                    return Err("invalid encoder_type");
                }
            },
            None => {
                return Err("encoder.encoder_type missing");
            },
        };
        let encoder_direction = match &self.encoder_direct {
            Some(d) => {
                if *d == 1 {
                    EncoderDirection::Same
                } else if *d == -1 {
                    EncoderDirection::Reverse
                } else {
                    return Err("invalid encoder_direct");
                }
            },
            None => {
                return Err("encoder.encoder_direct missing");
            },
        };
        let pole_pairs = match &self.pole_pairs {
            Some(v) => *v,
            None => {
                return Err("encoder.pole_pairs missing");
            },
        };
        let encoder_offset = match &self.encoder_offset {
            Some(v) => v.duplicate(),
            None => {
                return Err("encoder.encoder_offset missing");
            },
        };
        Ok(
            MotorConfig {
                id,
                udc,
                position_pid: PositionPIDConfig {
                    kp: pos_kp,
                    ki: pos_ki,
                    kd: pos_kd,
                    output_max: pos_max,
                },
                speed_pi: SpeedPIConfig { kp: spd_kp, ki: spd_ki, output_max: spd_max },
                current_id_pi: CurrentPIConfig { kp: id_kp, ki: id_ki },
                current_iq_pi: CurrentPIConfig { kp: iq_kp, ki: iq_ki },
                fc,
                encoder_config: EncoderConfig {
                    pole_pairs,
                    encoder_direction,
                    encoder_offset,
                    encoder_type,
                },
            },
        )
    }
}

/// Folding a whole sequence of device lines into the parser state.
pub open spec fn feed_lines(v: ParserView, lines: Seq<Seq<char>>) -> ParserView
    decreases lines.len(),
{
    if lines.len() == 0 {
        v
    } else {
        feed_lines(parse_line_spec(v, lines[0]), lines.subrange(1, lines.len() as int))
    }
}

/// Every field already seen in `v1` is still seen in `v2`.
pub open spec fn fields_kept(v1: ParserView, v2: ParserView) -> bool {
    &&& (v1.id is Some ==> v2.id is Some)
    &&& (v1.udc is Some ==> v2.udc is Some)
    &&& (v1.idq_filter_fc is Some ==> v2.idq_filter_fc is Some)
    &&& (v1.pos_kp is Some ==> v2.pos_kp is Some)
    &&& (v1.pos_ki is Some ==> v2.pos_ki is Some)
    &&& (v1.pos_kd is Some ==> v2.pos_kd is Some)
    &&& (v1.pos_maxoutput is Some ==> v2.pos_maxoutput is Some)
    &&& (v1.spd_kp is Some ==> v2.spd_kp is Some)
    &&& (v1.spd_ki is Some ==> v2.spd_ki is Some)
    &&& (v1.spd_maxoutput is Some ==> v2.spd_maxoutput is Some)
    &&& (v1.id_kp is Some ==> v2.id_kp is Some)
    &&& (v1.id_ki is Some ==> v2.id_ki is Some)
    &&& (v1.iq_kp is Some ==> v2.iq_kp is Some)
    &&& (v1.iq_ki is Some ==> v2.iq_ki is Some)
    &&& (v1.pole_pairs is Some ==> v2.pole_pairs is Some)
    &&& (v1.encoder_direct is Some ==> v2.encoder_direct is Some)
    &&& (v1.encoder_offset is Some ==> v2.encoder_offset is Some)
    &&& (v1.encoder_type is Some ==> v2.encoder_type is Some)
}

/// One line never unsets a field: a value, once seen, can only be
/// overwritten by a later value, never forgotten.
pub proof fn lemma_step_monotonic(v: ParserView, line: Seq<char>)
    ensures
        fields_kept(v, parse_line_spec(v, line)),
{
}

/// Feeding any lines keeps every field that was already seen.
pub proof fn lemma_feed_monotonic(v: ParserView, lines: Seq<Seq<char>>)
    ensures
        fields_kept(v, feed_lines(v, lines)),
    decreases lines.len(),
{
    if lines.len() > 0 {
        lemma_step_monotonic(v, lines[0]);
        lemma_feed_monotonic(parse_line_spec(v, lines[0]), lines.subrange(
            1,
            lines.len() as int,
        ));
    }
}

/// Completeness is monotonic: once the parser is complete, no further
/// line takes that away.
pub proof fn lemma_complete_monotonic(v: ParserView, lines: Seq<Seq<char>>)
    requires
        complete(v),
    ensures
        complete(feed_lines(v, lines)),
{
    lemma_feed_monotonic(v, lines);
}

/// Feeding a concatenation is feeding the parts in turn.
pub proof fn lemma_feed_lines_append(v: ParserView, a: Seq<Seq<char>>, b: Seq<Seq<char>>)
    ensures
        feed_lines(v, a + b) == feed_lines(feed_lines(v, a), b),
    decreases a.len(),
{
    if a.len() == 0 {
        assert(a + b =~= b);
    } else {
        let v1 = parse_line_spec(v, a[0]);
        assert((a + b)[0] == a[0]);
        assert((a + b).subrange(1, (a + b).len() as int) =~= a.subrange(1, a.len() as int)
            + b);
        lemma_feed_lines_append(v1, a.subrange(1, a.len() as int), b);
    }
}

/// Names of the dump's required fields, for stating coverage laws.
pub ghost enum Field {
    Id,
    Udc,
    IdqFilterFc,
    PosKp,
    PosKi,
    PosKd,
    PosMaxoutput,
    SpdKp,
    SpdKi,
    SpdMaxoutput,
    IdKp,
    IdKi,
    IqKp,
    IqKi,
    PolePairs,
    EncoderDirect,
    EncoderOffset,
    EncoderType,
}

pub open spec fn field_set(v: ParserView, f: Field) -> bool {
    match f {
        Field::Id => v.id is Some,
        Field::Udc => v.udc is Some,
        Field::IdqFilterFc => v.idq_filter_fc is Some,
        Field::PosKp => v.pos_kp is Some,
        Field::PosKi => v.pos_ki is Some,
        Field::PosKd => v.pos_kd is Some,
        Field::PosMaxoutput => v.pos_maxoutput is Some,
        Field::SpdKp => v.spd_kp is Some,
        Field::SpdKi => v.spd_ki is Some,
        Field::SpdMaxoutput => v.spd_maxoutput is Some,
        Field::IdKp => v.id_kp is Some,
        Field::IdKi => v.id_ki is Some,
        Field::IqKp => v.iq_kp is Some,
        Field::IqKi => v.iq_ki is Some,
        Field::PolePairs => v.pole_pairs is Some,
        Field::EncoderDirect => v.encoder_direct is Some,
        Field::EncoderOffset => v.encoder_offset is Some,
        Field::EncoderType => v.encoder_type is Some,
    }
}

/// The section whose `key: value` lines carry the field.
pub open spec fn section_of_field(f: Field) -> Section {
    match f {
        Field::Id => Section::Top,
        Field::Udc => Section::Top,
        Field::IdqFilterFc => Section::Top,
        Field::PosKp => Section::PositionPid,
        Field::PosKi => Section::PositionPid,
        Field::PosKd => Section::PositionPid,
        Field::PosMaxoutput => Section::PositionPid,
        Field::SpdKp => Section::SpeedPi,
        Field::SpdKi => Section::SpeedPi,
        Field::SpdMaxoutput => Section::SpeedPi,
        Field::IdKp => Section::IPi,
        Field::IdKi => Section::IPi,
        Field::IqKp => Section::IPi,
        Field::IqKi => Section::IPi,
        Field::PolePairs => Section::Encoder,
        Field::EncoderDirect => Section::Encoder,
        Field::EncoderOffset => Section::Encoder,
        Field::EncoderType => Section::Encoder,
    }
}

/// The trimmed line, fed in the field's section, records the field.
pub open spec fn line_sets(f: Field, t: Seq<char>) -> bool {
    match f {
        Field::Id => set_u8(None, t, "id:"@) is Some,
        Field::Udc => set_decimal(None, t, "udc:"@) is Some,
        Field::IdqFilterFc => set_decimal(None, t, "idq_filter_fc:"@) is Some,
        Field::PosKp => set_decimal(None, t, "Kp:"@) is Some,
        Field::PosKi => set_decimal(None, t, "Ki:"@) is Some,
        Field::PosKd => set_decimal(None, t, "Kd:"@) is Some,
        Field::PosMaxoutput => set_decimal(None, t, "maxoutput:"@) is Some,
        Field::SpdKp => set_decimal(None, t, "Kp:"@) is Some,
        Field::SpdKi => set_decimal(None, t, "Ki:"@) is Some,
        Field::SpdMaxoutput => set_decimal(None, t, "maxoutput:"@) is Some,
        Field::IdKp => set_decimal(None, t, "id_Kp:"@) is Some,
        Field::IdKi => set_decimal(None, t, "id_Ki:"@) is Some,
        Field::IqKp => set_decimal(None, t, "iq_Kp:"@) is Some,
        Field::IqKi => set_decimal(None, t, "iq_Ki:"@) is Some,
        Field::PolePairs => set_u32(None, t, "pole_pairs:"@) is Some,
        Field::EncoderDirect => set_i32(None, t, "encoder_direct:"@) is Some,
        Field::EncoderOffset => set_decimal(None, t, "encoder_offset:"@) is Some,
        Field::EncoderType => set_token(None, t, "encoder_type:"@) is Some,
    }
}

/// A trimmed line that switches the section cursor.
pub open spec fn is_header(t: Seq<char>) -> bool {
    t == "position_pid:"@ || t == "speed_pi:"@ || t == "i_pi:"@ || t == "encoder:"@
}

/// The header line that opens a section.
pub open spec fn header_of(sec: Section) -> Seq<char> {
    match sec {
        Section::Top => ""@,
        Section::PositionPid => "position_pid:"@,
        Section::SpeedPi => "speed_pi:"@,
        Section::IPi => "i_pi:"@,
        Section::Encoder => "encoder:"@,
    }
}

/// A non-header line leaves the section cursor where it was.
pub proof fn lemma_step_keeps_section(v: ParserView, line: Seq<char>)
    requires
        !is_header(text::trim_spec(line)),
    ensures
        parse_line_spec(v, line).section == v.section,
{
}

/// Fed in its field's section, a setter line records the field.
pub proof fn lemma_step_sets(v: ParserView, line: Seq<char>, f: Field)
    requires
        v.section == section_of_field(f),
        !is_header(text::trim_spec(line)),
        line_sets(f, text::trim_spec(line)),
    ensures
        field_set(parse_line_spec(v, line), f),
{
}

/// Feeding non-header lines of which one sets `f`, in `f`'s section,
/// records the field.
proof fn lemma_feed_sets_field(v: ParserView, lines: Seq<Seq<char>>, f: Field)
    requires
        v.section == section_of_field(f),
        forall|i: int| 0 <= i < lines.len() ==> !is_header(text::trim_spec(#[trigger] lines[i])),
        exists|i: int| 0 <= i < lines.len() && line_sets(f, text::trim_spec(#[trigger] lines[i])),
    ensures
        field_set(feed_lines(v, lines), f),
    decreases lines.len(),
{
    let i = choose|i: int| 0 <= i < lines.len() && line_sets(f, text::trim_spec(#[trigger] lines[i]));
    let v1 = parse_line_spec(v, lines[0]);
    let tail = lines.subrange(1, lines.len() as int);
    lemma_step_keeps_section(v, lines[0]);
    if i == 0 {
        lemma_step_sets(v, lines[0], f);
        lemma_feed_monotonic(v1, tail);
    } else {
        assert(line_sets(f, text::trim_spec(tail[i - 1])));
        lemma_feed_sets_field(v1, tail, f);
    }
}

/// A well-formed block for a section: its header first, then only
/// `key: value` lines among which every field of the section is set at
/// least once.
pub open spec fn wf_block(sec: Section, lines: Seq<Seq<char>>) -> bool {
    &&& sec != Section::Top
    &&& lines.len() >= 1
    &&& text::trim_spec(lines[0]) == header_of(sec)
    &&& forall|i: int| 1 <= i < lines.len() ==> !is_header(text::trim_spec(#[trigger] lines[i]))
    &&& forall|f: Field| #[trigger] section_of_field(f) == sec ==> exists|i: int|
        1 <= i < lines.len() && line_sets(f, text::trim_spec(#[trigger] lines[i]))
}

/// Top-level lines: no header, and every top-level field set at least
/// once.
pub open spec fn wf_top_lines(lines: Seq<Seq<char>>) -> bool {
    &&& forall|i: int| 0 <= i < lines.len() ==> !is_header(text::trim_spec(#[trigger] lines[i]))
    &&& exists|i: int| 0 <= i < lines.len() && line_sets(Field::Id, text::trim_spec(
        #[trigger] lines[i],
    ))
    &&& exists|i: int| 0 <= i < lines.len() && line_sets(Field::Udc, text::trim_spec(
        #[trigger] lines[i],
    ))
    &&& exists|i: int| 0 <= i < lines.len() && line_sets(Field::IdqFilterFc, text::trim_spec(
        #[trigger] lines[i],
    ))
}

/// Feeding a well-formed block records every field of its section.
proof fn lemma_block_sets(v: ParserView, sec: Section, lines: Seq<Seq<char>>, f: Field)
    requires
        wf_block(sec, lines),
        section_of_field(f) == sec,
    ensures
        field_set(feed_lines(v, lines), f),
{
    reveal_strlit("position_pid:");
    reveal_strlit("speed_pi:");
    reveal_strlit("i_pi:");
    reveal_strlit("encoder:");
    let v1 = parse_line_spec(v, lines[0]);
    let tail = lines.subrange(1, lines.len() as int);
    assert(v1.section == sec);
    let i = choose|i: int| 1 <= i < lines.len() && line_sets(f, text::trim_spec(#[trigger] lines[i]));
    assert(line_sets(f, text::trim_spec(tail[i - 1])));
    lemma_feed_sets_field(v1, tail, f);
}

/// Feeding the blocks one after the other.
pub open spec fn feed_blocks(v: ParserView, blocks: Seq<Seq<Seq<char>>>) -> ParserView
    decreases blocks.len(),
{
    if blocks.len() == 0 {
        v
    } else {
        feed_blocks(feed_lines(v, blocks[0]), blocks.subrange(1, blocks.len() as int))
    }
}

/// The lines of all the blocks in order.
pub open spec fn concat_blocks(blocks: Seq<Seq<Seq<char>>>) -> Seq<Seq<char>>
    decreases blocks.len(),
{
    if blocks.len() == 0 {
        Seq::empty()
    } else {
        blocks[0] + concat_blocks(blocks.subrange(1, blocks.len() as int))
    }
}

/// Feeding the concatenated lines is feeding the blocks in turn.
pub proof fn lemma_feed_concat(v: ParserView, blocks: Seq<Seq<Seq<char>>>)
    ensures
        feed_lines(v, concat_blocks(blocks)) == feed_blocks(v, blocks),
    decreases blocks.len(),
{
    if blocks.len() > 0 {
        let tail = blocks.subrange(1, blocks.len() as int);
        lemma_feed_lines_append(v, blocks[0], concat_blocks(tail));
        lemma_feed_concat(feed_lines(v, blocks[0]), tail);
    }
}

proof fn lemma_feed_blocks_monotonic(v: ParserView, blocks: Seq<Seq<Seq<char>>>)
    ensures
        fields_kept(v, feed_blocks(v, blocks)),
    decreases blocks.len(),
{
    if blocks.len() > 0 {
        let v1 = feed_lines(v, blocks[0]);
        lemma_feed_monotonic(v, blocks[0]);
        lemma_feed_blocks_monotonic(v1, blocks.subrange(1, blocks.len() as int));
    }
}

proof fn lemma_feed_blocks_sets(
    v: ParserView,
    secs: Seq<Section>,
    blocks: Seq<Seq<Seq<char>>>,
    f: Field,
)
    requires
        secs.len() == blocks.len(),
        forall|j: int| 0 <= j < blocks.len() ==> wf_block(secs[j], #[trigger] blocks[j]),
        exists|j: int| 0 <= j < secs.len() && #[trigger] secs[j] == section_of_field(f),
    ensures
        field_set(feed_blocks(v, blocks), f),
    decreases blocks.len(),
{
    let j = choose|j: int| 0 <= j < secs.len() && #[trigger] secs[j] == section_of_field(f);
    let v1 = feed_lines(v, blocks[0]);
    let stail = secs.subrange(1, secs.len() as int);
    let btail = blocks.subrange(1, blocks.len() as int);
    if j == 0 {
        lemma_block_sets(v, secs[0], blocks[0], f);
        lemma_feed_blocks_monotonic(v1, btail);
    } else {
        assert(stail[j - 1] == section_of_field(f));
        assert(forall|k: int| 0 <= k < btail.len() ==> wf_block(
            stail[k],
            #[trigger] btail[k],
        ));
        lemma_feed_blocks_sets(v1, stail, btail, f);
    }
}

/// Order-insensitive completeness of a configuration dump: a fresh
/// parser fed the top-level lines and then one well-formed block per
/// section, the blocks in any order and the keys inside each block in
/// any order, is complete.
pub proof fn lemma_config_dump_completeness(
    top: Seq<Seq<char>>,
    secs: Seq<Section>,
    blocks: Seq<Seq<Seq<char>>>,
)
    requires
        wf_top_lines(top),
        secs.len() == blocks.len(),
        forall|j: int| 0 <= j < blocks.len() ==> wf_block(secs[j], #[trigger] blocks[j]),
        exists|j: int| 0 <= j < secs.len() && #[trigger] secs[j] == Section::PositionPid,
        exists|j: int| 0 <= j < secs.len() && #[trigger] secs[j] == Section::SpeedPi,
        exists|j: int| 0 <= j < secs.len() && #[trigger] secs[j] == Section::IPi,
        exists|j: int| 0 <= j < secs.len() && #[trigger] secs[j] == Section::Encoder,
    ensures
        complete(feed_lines(init_view(), top + concat_blocks(blocks))),
{
    let v0 = init_view();
    let v1 = feed_lines(v0, top);
    lemma_feed_lines_append(v0, top, concat_blocks(blocks));
    lemma_feed_concat(v1, blocks);
    let vfinal = feed_blocks(v1, blocks);
    assert(v0.section == Section::Top);
    lemma_feed_sets_field(v0, top, Field::Id);
    lemma_feed_sets_field(v0, top, Field::Udc);
    lemma_feed_sets_field(v0, top, Field::IdqFilterFc);
    lemma_feed_blocks_monotonic(v1, blocks);
    lemma_feed_blocks_sets(v1, secs, blocks, Field::PosKp);
    lemma_feed_blocks_sets(v1, secs, blocks, Field::PosKi);
    lemma_feed_blocks_sets(v1, secs, blocks, Field::PosKd);
    lemma_feed_blocks_sets(v1, secs, blocks, Field::PosMaxoutput);
    lemma_feed_blocks_sets(v1, secs, blocks, Field::SpdKp);
    lemma_feed_blocks_sets(v1, secs, blocks, Field::SpdKi);
    lemma_feed_blocks_sets(v1, secs, blocks, Field::SpdMaxoutput);
    lemma_feed_blocks_sets(v1, secs, blocks, Field::IdKp);
    lemma_feed_blocks_sets(v1, secs, blocks, Field::IdKi);
    lemma_feed_blocks_sets(v1, secs, blocks, Field::IqKp);
    lemma_feed_blocks_sets(v1, secs, blocks, Field::IqKi);
    lemma_feed_blocks_sets(v1, secs, blocks, Field::PolePairs);
    lemma_feed_blocks_sets(v1, secs, blocks, Field::EncoderDirect);
    lemma_feed_blocks_sets(v1, secs, blocks, Field::EncoderOffset);
    lemma_feed_blocks_sets(v1, secs, blocks, Field::EncoderType);
}

/// The stored encoder type is nothing or the one known model.
pub open spec fn encoder_type_good(x: Option<Seq<char>>) -> bool {
    x is None || x == Some("MT6701"@)
}

/// The stored direction is nothing or one of the two valid senses.
pub open spec fn encoder_direct_good(x: Option<i32>) -> bool {
    x is None || x == Some(1i32) || x == Some(-1i32)
}

/// The trimmed line, wherever it lands, can only store the known
/// encoder type.
pub open spec fn type_line_ok(t: Seq<char>) -> bool {
    line_sets(Field::EncoderType, t) ==> text::key_value(t, "encoder_type:"@) == "MT6701"@
}

/// The trimmed line, wherever it lands, can only store a `1` or `-1`
/// direction.
pub open spec fn direct_line_ok(t: Seq<char>) -> bool {
    line_sets(Field::EncoderDirect, t) ==> (text::signed_value(
        text::key_value(t, "encoder_direct:"@),
    ) == 1 || text::signed_value(text::key_value(t, "encoder_direct:"@)) == -1)
}

proof fn lemma_step_enum_values(v: ParserView, line: Seq<char>)
    requires
        encoder_type_good(v.encoder_type),
        encoder_direct_good(v.encoder_direct),
        type_line_ok(text::trim_spec(line)),
        direct_line_ok(text::trim_spec(line)),
    ensures
        encoder_type_good(parse_line_spec(v, line).encoder_type),
        encoder_direct_good(parse_line_spec(v, line).encoder_direct),
{
}

proof fn lemma_feed_enum_values(v: ParserView, lines: Seq<Seq<char>>)
    requires
        encoder_type_good(v.encoder_type),
        encoder_direct_good(v.encoder_direct),
        forall|i: int| 0 <= i < lines.len() ==> type_line_ok(text::trim_spec(#[trigger] lines[i]))
            && direct_line_ok(text::trim_spec(lines[i])),
    ensures
        encoder_type_good(feed_lines(v, lines).encoder_type),
        encoder_direct_good(feed_lines(v, lines).encoder_direct),
    decreases lines.len(),
{
    if lines.len() > 0 {
        lemma_step_enum_values(v, lines[0]);
        let tail = lines.subrange(1, lines.len() as int);
        assert(forall|i: int| 0 <= i < tail.len() ==> type_line_ok(text::trim_spec(
            #[trigger] tail[i],
        )) && direct_line_ok(text::trim_spec(tail[i])));
        lemma_feed_enum_values(parse_line_spec(v, lines[0]), tail);
    }
}

/// Order-insensitive success of a configuration dump: under the
/// conditions of [`lemma_config_dump_completeness`], if moreover every
/// `encoder_type` line of the dump carries `MT6701` and every
/// `encoder_direct` line carries `1` or `-1`, the parser is complete
/// and conversion to a snapshot succeeds.
pub proof fn lemma_config_dump_converts(
    top: Seq<Seq<char>>,
    secs: Seq<Section>,
    blocks: Seq<Seq<Seq<char>>>,
)
    requires
        wf_top_lines(top),
        secs.len() == blocks.len(),
        forall|j: int| 0 <= j < blocks.len() ==> wf_block(secs[j], #[trigger] blocks[j]),
        exists|j: int| 0 <= j < secs.len() && #[trigger] secs[j] == Section::PositionPid,
        exists|j: int| 0 <= j < secs.len() && #[trigger] secs[j] == Section::SpeedPi,
        exists|j: int| 0 <= j < secs.len() && #[trigger] secs[j] == Section::IPi,
        exists|j: int| 0 <= j < secs.len() && #[trigger] secs[j] == Section::Encoder,
        ({
            let lines = top + concat_blocks(blocks);
            forall|i: int| 0 <= i < lines.len() ==> type_line_ok(text::trim_spec(
                #[trigger] lines[i],
            )) && direct_line_ok(text::trim_spec(lines[i]))
        }),
    ensures
        complete(feed_lines(init_view(), top + concat_blocks(blocks))),
        convert_error(feed_lines(init_view(), top + concat_blocks(blocks))) is None,
{
    lemma_config_dump_completeness(top, secs, blocks);
    lemma_feed_enum_values(init_view(), top + concat_blocks(blocks));
}

impl Default for ConfigParser {
    /// Same state as [`ConfigParser::new`].
    fn default() -> (r: Self)
        ensures
            r@ == init_view(),
    {
        ConfigParser::new()
    }
}

} // verus!
