//! The channel data model: one stored frequency slot on the device, and the
//! field-specific errors its wire record can fail with.

use vstd::prelude::*;

verus! {

/// A field-specific failure while parsing one wire channel record.
///
/// Each variant names exactly the record field that was malformed, so a batch
/// caller can report and skip a single bad record.
#[derive(Clone, Copy, PartialEq, Eq, Structural, Debug)]
pub enum ParseError {
    Delay,
    Frequency,
    Locked,
    Modulation,
    Priority,
}

impl ParseError {
    /// A human-readable description of which field failed to parse.
    pub fn message(&self) -> (r: &'static str)
        ensures
            r@ == match *self {
                ParseError::Delay => "Could not parse the delay"@,
                ParseError::Frequency => "Could not parse the frequency"@,
                ParseError::Locked => "Could not parse the locked state"@,
                ParseError::Modulation => "Could not parse the modulation"@,
                ParseError::Priority => "Could not parse the priority"@,
            },
    {
        match self {
            ParseError::Delay => "Could not parse the delay",
            ParseError::Frequency => "Could not parse the frequency",
            ParseError::Locked => "Could not parse the locked state",
            ParseError::Modulation => "Could not parse the modulation",
            ParseError::Priority => "Could not parse the priority",
        }
    }
}

/// The modulation of a channel; the wire token is the literal "AM" or "FM".
#[derive(Clone, Copy, PartialEq, Eq, Structural, Debug)]
pub enum Modulation {
    AmplitudeModulation,
    FrequencyModulation,
}

/// The exact two-character wire token of a modulation.
pub open spec fn spec_modulation_token(m: Modulation) -> Seq<char> {
    match m {
        Modulation::AmplitudeModulation => seq!['A', 'M'],
        Modulation::FrequencyModulation => seq!['F', 'M'],
    }
}

/// How a modulation field is read: a case-sensitive match against the two
/// wire tokens; anything else is a `Modulation` error.
pub open spec fn spec_modulation_from(s: Seq<char>) -> Result<Modulation, ParseError> {
    if s == spec_modulation_token(Modulation::AmplitudeModulation) {
        Ok(Modulation::AmplitudeModulation)
    } else if s == spec_modulation_token(Modulation::FrequencyModulation) {
        Ok(Modulation::FrequencyModulation)
    } else {
        Err(ParseError::Modulation)
    }
}

impl Modulation {
    /// Match a wire token, case-sensitively, against "AM" and "FM".
    pub fn from_str(s: &str) -> (r: Result<Modulation, ParseError>)
        ensures
            r == spec_modulation_from(s@),
    {
        proof {
            reveal_strlit("AM");
            reveal_strlit("FM");
            assert("AM"@ =~= spec_modulation_token(Modulation::AmplitudeModulation));
            assert("FM"@ =~= spec_modulation_token(Modulation::FrequencyModulation));
        }
        if crate::text::str_eq(s, "AM") {
            Ok(Modulation::AmplitudeModulation)
        } else if crate::text::str_eq(s, "FM") {
            Ok(Modulation::FrequencyModulation)
        } else {
            Err(ParseError::Modulation)
        }
    }

    /// The token this modulation is written as on the wire.
    pub fn wire_token(&self) -> (r: &'static str)
        ensures
            r@ == spec_modulation_token(*self),
    {
        proof {
            reveal_strlit("AM");
            reveal_strlit("FM");
            assert("AM"@ =~= spec_modulation_token(Modulation::AmplitudeModulation));
            assert("FM"@ =~= spec_modulation_token(Modulation::FrequencyModulation));
        }
        match self {
            Modulation::AmplitudeModulation => "AM",
            Modulation::FrequencyModulation => "FM",
        }
    }
}

/// One stored frequency slot on the device.
#[derive(Clone, PartialEq, Debug)]
pub struct Channel {
    /// Physical memory slot, 1-based; assigned by the caller context, not by
    /// the record parser.
    pub id: usize,
    /// Display label; the wire field is exactly 16 characters, so longer tags
    /// are truncated and shorter ones space-padded when serialized.
    pub tag: String,
    /// Frequency in Hz. The wire carries frequency in units of 100 Hz, so
    /// only multiples of 100 Hz are representable; serializing truncates any
    /// sub-100 Hz remainder.
    pub frequency: u64,
    pub modulation: Modulation,
    /// Scan resume delay; a non-negative wire decimal.
    pub delay: usize,
    pub locked: bool,
    pub priority: bool,
}

/// The mathematical model of a channel: the tag as a character sequence and
/// the numeric fields as unbounded integers.
pub ghost struct ChannelModel {
    pub id: nat,
    pub tag: Seq<char>,
    pub frequency: nat,
    pub modulation: Modulation,
    pub delay: nat,
    pub locked: bool,
    pub priority: bool,
}

impl View for Channel {
    type V = ChannelModel;

    open spec fn view(&self) -> ChannelModel {
        ChannelModel {
            id: self.id as nat,
            tag: self.tag@,
            frequency: self.frequency as nat,
            modulation: self.modulation,
            delay: self.delay as nat,
            locked: self.locked,
            priority: self.priority,
        }
    }
}

} // verus!
