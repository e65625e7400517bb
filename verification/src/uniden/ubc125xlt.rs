//! The device protocol of one handheld scanner model: the fixed-field textual
//! channel record codec, the request strings, and the session state machine
//! that sequences remote ("programming") mode around request/response round
//! trips.
//!
//! The session here is the decision core: it builds each request, interprets
//! each reply, and tracks the protocol phase. The bulk USB transfers that move
//! the framed bytes happen outside the library.

use vstd::prelude::*;

use crate::channel::Channel;
use crate::channel::ChannelModel;
use crate::channel::Modulation;
use crate::channel::ParseError;
use crate::channel::spec_modulation_from;
use crate::channel::spec_modulation_token;
use crate::scanner::ScannerError;
use crate::text::all_digits;
use crate::text::dec_digits;
use crate::text::dec_value;
use crate::text::is_wspace;
use crate::text::join_commas;
use crate::text::lemma_dec_digits_value;
use crate::text::lemma_digits_no_comma;
use crate::text::lemma_join_cons;
use crate::text::lemma_split_join;
use crate::text::lemma_trim_of_padded;
use crate::text::lemma_zero_pad_value;
use crate::text::no_comma;
use crate::text::spec_split;
use crate::text::parse_bool;
use crate::text::parse_usize;
use crate::text::spec_field;
use crate::text::spec_trim;
use crate::text::split_commas;
use crate::text::str_eq;
use crate::text::trim_str;
use crate::text::format_u64;
use crate::text::format_u64_padded;
use crate::text::zero_pad;

verus! {

/// The channel capacity of this model.
pub const CHANNEL_CAPACITY: usize = 500;

/// A failure of the device's structured reply to match the expected
/// confirmation.
#[derive(Clone, Copy, PartialEq, Eq, Structural, Debug)]
pub enum UBC125XLTError {
    /// The device did not confirm entering programming mode.
    ProgrammingEnterError,
    /// The device did not confirm leaving programming mode.
    ProgrammingExitError,
    /// The device rejected uploaded channel data.
    UploadError,
    /// Not all data could be written to the device.
    WriteError,
}

impl UBC125XLTError {
    /// A human-readable description of the failure.
    pub fn message(&self) -> (r: &'static str)
        ensures
            r@ == match *self {
                UBC125XLTError::ProgrammingEnterError => "Could not enter Programming Mode"@,
                UBC125XLTError::ProgrammingExitError => "Could not leave Programming Mode"@,
                UBC125XLTError::UploadError => "Could not upload channel data"@,
                UBC125XLTError::WriteError => "Could not write to device"@,
            },
    {
        match self {
            UBC125XLTError::ProgrammingEnterError => "Could not enter Programming Mode",
            UBC125XLTError::ProgrammingExitError => "Could not leave Programming Mode",
            UBC125XLTError::UploadError => "Could not upload channel data",
            UBC125XLTError::WriteError => "Could not write to device",
        }
    }
}

/// One request of the wire protocol.
pub enum Request {
    /// Retrieve the scanner model string.
    Model,
    /// Retrieve the scanner version string.
    Version,
    /// Have the scanner enter programming mode.
    EnterProgrammingMode,
    /// Have the scanner leave programming mode.
    ExitProgrammingMode,
    /// Retrieve one channel from the scanner.
    DownloadChannel(usize),
    /// Send one channel to the scanner.
    UploadChannel(usize, Channel),
}

// ---------------------------------------------------------------------------
// Channel record codec
// ---------------------------------------------------------------------------

/// The tag as written on the wire: truncated to the field width, or padded
/// with trailing spaces up to it.
pub open spec fn pad_tag(tag: Seq<char>) -> Seq<char> {
    if tag.len() >= 16 {
        tag.subrange(0, 16)
    } else {
        tag + Seq::new((16 - tag.len()) as nat, |i: int| ' ')
    }
}

/// A wire boolean: "1" for true, "0" for false.
pub open spec fn bool_digit(b: bool) -> Seq<char> {
    if b {
        seq!['1']
    } else {
        seq!['0']
    }
}

/// Whether a frequency field parses: decimal digits whose value fits the
/// integer parser and whose 100 Hz scaling fits the frequency type.
pub open spec fn freq_field_ok(f: Seq<char>) -> bool {
    f.len() > 0 && all_digits(f) && dec_value(f) <= usize::MAX && dec_value(f) * 100 <= u64::MAX
}

/// Whether an unsigned integer field parses.
pub open spec fn uint_field_ok(f: Seq<char>) -> bool {
    f.len() > 0 && all_digits(f) && dec_value(f) <= usize::MAX
}

/// What parsing a channel record returns: the record is split at commas;
/// field 0 (the slot echo) is ignored, field 1 is the trimmed tag, field 2
/// the frequency in units of 100 Hz, field 3 the modulation token, field 4
/// (CTCSS/DCS) is skipped, fields 5 to 7 are delay, locked and priority.
/// The first malformed field, in that reading order, names the error.
pub open spec fn spec_parse(s: Seq<char>) -> Result<ChannelModel, ParseError> {
    let f2 = spec_field(s, 2);
    let f3 = spec_field(s, 3);
    let f5 = spec_field(s, 5);
    let f6 = spec_field(s, 6);
    let f7 = spec_field(s, 7);
    if !freq_field_ok(f2) {
        Err(ParseError::Frequency)
    } else if spec_modulation_from(f3) is Err {
        Err(ParseError::Modulation)
    } else if !uint_field_ok(f5) {
        Err(ParseError::Delay)
    } else if !uint_field_ok(f6) {
        Err(ParseError::Locked)
    } else if !uint_field_ok(f7) {
        Err(ParseError::Priority)
    } else {
        Ok(
            ChannelModel {
                id: 0,
                tag: spec_trim(spec_field(s, 1)),
                frequency: dec_value(f2) * 100,
                modulation: spec_modulation_from(f3)->Ok_0,
                delay: dec_value(f5),
                locked: dec_value(f6) != 0,
                priority: dec_value(f7) != 0,
            },
        )
    }
}

/// The serialized form of a channel: the exact byte-for-byte record layout
/// the device accepts, with the CTCSS/DCS field always written as "0" and
/// the frequency truncated to the wire's 100 Hz resolution.
pub open spec fn spec_serialize(c: ChannelModel) -> Seq<char> {
    pad_tag(c.tag) + seq![','] + zero_pad(dec_digits(c.frequency / 100), 8) + seq![',']
        + spec_modulation_token(c.modulation) + seq![','] + seq!['0'] + seq![','] + dec_digits(
        c.delay,
    ) + seq![','] + bool_digit(c.locked) + seq![','] + bool_digit(c.priority)
}

/// Parse channel information from one wire record (without the command
/// echo). The slot id is not taken from the record: a freshly parsed channel
/// carries id 0 until its caller assigns the requested slot.
pub fn parse_channel(line: &str) -> (r: Result<Channel, ParseError>)
    ensures
        spec_parse(line@) is Ok ==> r is Ok && r->Ok_0@ == spec_parse(line@)->Ok_0,
        spec_parse(line@) is Err ==> r is Err && r->Err_0 == spec_parse(line@)->Err_0,
{
    let parts = split_commas(line);
    proof {
        reveal_strlit("");
        assert(""@ =~= Seq::<char>::empty());
    }
    let f1: &str = if parts.len() > 1 {
        parts[1].as_str()
    } else {
        ""
    };
    let f2: &str = if parts.len() > 2 {
        parts[2].as_str()
    } else {
        ""
    };
    let f3: &str = if parts.len() > 3 {
        parts[3].as_str()
    } else {
        ""
    };
    let f5: &str = if parts.len() > 5 {
        parts[5].as_str()
    } else {
        ""
    };
    let f6: &str = if parts.len() > 6 {
        parts[6].as_str()
    } else {
        ""
    };
    let f7: &str = if parts.len() > 7 {
        parts[7].as_str()
    } else {
        ""
    };
    proof {
        assert(f1@ == spec_field(line@, 1));
        assert(f2@ == spec_field(line@, 2));
        assert(f3@ == spec_field(line@, 3));
        assert(f5@ == spec_field(line@, 5));
        assert(f6@ == spec_field(line@, 6));
        assert(f7@ == spec_field(line@, 7));
    }
    let tag = trim_str(f1).to_owned();
    let freq_raw = match parse_usize(f2) {
        Some(v) => v,
        None => {
            return Err(ParseError::Frequency);
        },
    };
    let freq_wide = freq_raw as u64;
    if freq_wide > u64::MAX / 100 {
        proof {
            vstd::arithmetic::div_mod::lemma_fundamental_div_mod(u64::MAX as int, 100);
        }
        return Err(ParseError::Frequency);
    }
    let frequency = freq_wide * 100;
    let modulation = match Modulation::from_str(f3) {
        Ok(m) => m,
        Err(e) => {
            return Err(e);
        },
    };
    let delay = match parse_usize(f5) {
        Some(v) => v,
        None => {
            return Err(ParseError::Delay);
        },
    };
    let locked = match parse_bool(f6) {
        Some(v) => v,
        None => {
            return Err(ParseError::Locked);
        },
    };
    let priority = match parse_bool(f7) {
        Some(v) => v,
        None => {
            return Err(ParseError::Priority);
        },
    };
    Ok(Channel { id: 0, tag, frequency, modulation, delay, locked, priority })
}

/// Serialize channel information to the exact wire record layout.
pub fn serialize_channel(channel: &Channel) -> (r: String)
    ensures
        r@ == spec_serialize(channel@),
{
    proof {
        reveal_strlit(",");
        reveal_strlit("0");
        reveal_strlit("1");
    }
    let mut r = pad_tag_exec(channel.tag.as_str());
    r.append(",");
    let freq = format_u64_padded(channel.frequency / 100, 8);
    r.append(freq.as_str());
    r.append(",");
    r.append(channel.modulation.wire_token());
    r.append(",");
    r.append("0");
    r.append(",");
    let delay = format_u64(channel.delay as u64);
    r.append(delay.as_str());
    r.append(",");
    r.append(if channel.locked { "1" } else { "0" });
    r.append(",");
    r.append(if channel.priority { "1" } else { "0" });
    proof {
        assert(r@ =~= spec_serialize(channel@));
    }
    r
}

/// The tag as written on the wire: truncate to the field width, or pad with
/// trailing spaces up to it.
fn pad_tag_exec(tag: &str) -> (r: String)
    ensures
        r@ == pad_tag(tag@),
{
    let n = tag.unicode_len();
    if n >= 16 {
        tag.substring_char(0, 16).to_owned()
    } else {
        let mut r = tag.to_owned();
        let mut k: usize = n;
        while k < 16
            invariant
                n <= k <= 16,
                n == tag@.len(),
                r@ =~= tag@ + Seq::new((k - n) as nat, |i: int| ' '),
            decreases 16 - k,
        {
            r.append(" ");
            proof {
                reveal_strlit(" ");
                assert(r@ =~= tag@ + Seq::new((k + 1 - n) as nat, |i: int| ' '));
            }
            k = k + 1;
        }
        r
    }
}

// ---------------------------------------------------------------------------
// Codec laws
// ---------------------------------------------------------------------------

/// The fields of a serialized record, in wire order, before comma joining.
pub open spec fn serialize_fields(c: ChannelModel) -> Seq<Seq<char>> {
    seq![
        pad_tag(c.tag),
        zero_pad(dec_digits(c.frequency / 100), 8),
        spec_modulation_token(c.modulation),
        seq!['0'],
        dec_digits(c.delay),
        bool_digit(c.locked),
        bool_digit(c.priority),
    ]
}

proof fn lemma_serialize_is_join(c: ChannelModel)
    ensures
        spec_serialize(c) == join_commas(serialize_fields(c)),
{
    let f = serialize_fields(c);
    let s1 = seq![f[0]];
    let s2 = seq![f[0], f[1]];
    let s3 = seq![f[0], f[1], f[2]];
    let s4 = seq![f[0], f[1], f[2], f[3]];
    let s5 = seq![f[0], f[1], f[2], f[3], f[4]];
    let s6 = seq![f[0], f[1], f[2], f[3], f[4], f[5]];
    assert(join_commas(s1) == f[0]);
    assert(s2.drop_last() =~= s1);
    assert(join_commas(s2) == join_commas(s1) + seq![','] + f[1]);
    assert(s3.drop_last() =~= s2);
    assert(join_commas(s3) == join_commas(s2) + seq![','] + f[2]);
    assert(s4.drop_last() =~= s3);
    assert(join_commas(s4) == join_commas(s3) + seq![','] + f[3]);
    assert(s5.drop_last() =~= s4);
    assert(join_commas(s5) == join_commas(s4) + seq![','] + f[4]);
    assert(s6.drop_last() =~= s5);
    assert(join_commas(s6) == join_commas(s5) + seq![','] + f[5]);
    assert(f.drop_last() =~= s6);
    assert(join_commas(f) == join_commas(s6) + seq![','] + f[6]);
    assert(spec_serialize(c) =~= join_commas(f));
}

proof fn lemma_bool_digit_value(b: bool)
    ensures
        bool_digit(b).len() == 1,
        all_digits(bool_digit(b)),
        dec_value(bool_digit(b)) == if b {
            1nat
        } else {
            0nat
        },
        (dec_value(bool_digit(b)) != 0) == b,
{
    let d = bool_digit(b);
    assert(d.drop_last() =~= Seq::<char>::empty());
    assert(dec_value(d) == dec_value(d.drop_last()) * 10 + crate::text::digit_val(d.last()));
    assert(all_digits(d)) by {
        assert(crate::text::is_digit(d[0]));
    }
}

/// Law: the serialize/parse round trip. A channel whose tag fits the wire
/// field and carries no comma and no whitespace at either edge, and whose
/// frequency is an exact, representable multiple of 100 Hz, is reproduced
/// field for field by parsing the upload record it serializes into (the
/// parser itself leaves the slot id unassigned at 0).
pub proof fn lemma_serialize_parse_round_trip(c: ChannelModel, id: nat)
    requires
        c.tag.len() <= 16,
        no_comma(c.tag),
        c.tag.len() > 0 ==> !is_wspace(c.tag.first()) && !is_wspace(c.tag.last()),
        c.frequency % 100 == 0,
        c.frequency / 100 <= usize::MAX,
        c.frequency <= u64::MAX,
        c.delay <= usize::MAX,
    ensures
        spec_parse(dec_digits(id) + seq![','] + spec_serialize(c)) == Ok::<
            ChannelModel,
            ParseError,
        >(ChannelModel { id: 0, ..c }),
{
    let record = dec_digits(id) + seq![','] + spec_serialize(c);
    let f = serialize_fields(c);
    let g = seq![dec_digits(id)] + f;
    lemma_serialize_is_join(c);
    lemma_join_cons(dec_digits(id), f);
    assert(join_commas(g) == record);

    // Every field is comma-free, so the split of the joined record is exact.
    lemma_dec_digits_value(id);
    lemma_digits_no_comma(dec_digits(id));
    let freq_digits = dec_digits(c.frequency / 100);
    let freq_field = zero_pad(freq_digits, 8);
    lemma_dec_digits_value(c.frequency / 100);
    lemma_zero_pad_value(freq_digits, 8);
    lemma_digits_no_comma(freq_field);
    lemma_dec_digits_value(c.delay);
    lemma_digits_no_comma(dec_digits(c.delay));
    lemma_bool_digit_value(c.locked);
    lemma_bool_digit_value(c.priority);
    lemma_digits_no_comma(bool_digit(c.locked));
    lemma_digits_no_comma(bool_digit(c.priority));
    let token = spec_modulation_token(c.modulation);
    assert(no_comma(token)) by {
        assert(token[0] != ',' && token[1] != ',');
        assert(forall|i: int| 0 <= i < token.len() ==> #[trigger] token[i] != ',');
    }
    assert(no_comma(seq!['0'])) by {
        assert(seq!['0'][0] != ',');
        assert(forall|i: int| 0 <= i < seq!['0'].len() ==> #[trigger] seq!['0'][i] != ',');
    }
    let pad = Seq::new((16 - c.tag.len()) as nat, |i: int| ' ');
    assert(no_comma(pad_tag(c.tag))) by {
        if c.tag.len() >= 16 {
            assert(pad_tag(c.tag) =~= c.tag);
            assert(forall|i: int|
                0 <= i < pad_tag(c.tag).len() ==> #[trigger] pad_tag(c.tag)[i] != ',');
        } else {
            assert(forall|i: int|
                0 <= i < pad_tag(c.tag).len() ==> #[trigger] pad_tag(c.tag)[i] != ',') by {
                assert(forall|i: int|
                    0 <= i < c.tag.len() ==> #[trigger] pad_tag(c.tag)[i] == c.tag[i]);
                assert(forall|i: int|
                    c.tag.len() <= i < pad_tag(c.tag).len() ==> #[trigger] pad_tag(c.tag)[i]
                        == ' ');
            }
        }
    }
    assert(forall|i: int| 0 <= i < g.len() ==> no_comma(#[trigger] g[i]));
    lemma_split_join(g);
    assert(spec_split(record) == g);
    assert(g.len() == 8);

    // Field 1: trimming undoes the space padding of the tag.
    assert(spec_field(record, 1) == pad_tag(c.tag));
    if c.tag.len() == 16 {
        assert(pad_tag(c.tag) =~= c.tag);
        lemma_trim_of_padded(c.tag, Seq::<char>::empty());
        assert(c.tag + Seq::<char>::empty() =~= c.tag);
    } else {
        assert(forall|i: int| 0 <= i < pad.len() ==> is_wspace(#[trigger] pad[i]));
        lemma_trim_of_padded(c.tag, pad);
    }
    assert(spec_trim(spec_field(record, 1)) == c.tag);

    // Field 2: the zero-padded digits name frequency / 100, and scaling back
    // by 100 recovers the frequency exactly because it is a multiple of 100.
    assert(spec_field(record, 2) == freq_field);
    assert(freq_field_ok(freq_field));
    vstd::arithmetic::div_mod::lemma_fundamental_div_mod(c.frequency as int, 100);
    assert(dec_value(freq_field) * 100 == c.frequency);

    // Field 3: the wire token names the modulation it was written from.
    assert(spec_field(record, 3) == token);
    assert(spec_modulation_token(Modulation::AmplitudeModulation)[0] == 'A');
    assert(spec_modulation_token(Modulation::FrequencyModulation)[0] == 'F');
    assert(spec_modulation_from(token) == Ok::<Modulation, ParseError>(c.modulation));

    // Fields 5 to 7: plain decimal values.
    assert(spec_field(record, 5) == dec_digits(c.delay));
    assert(uint_field_ok(dec_digits(c.delay)));
    assert(spec_field(record, 6) == bool_digit(c.locked));
    assert(uint_field_ok(bool_digit(c.locked)));
    assert(spec_field(record, 7) == bool_digit(c.priority));
    assert(uint_field_ok(bool_digit(c.priority)));

    assert(spec_parse(record) == Ok::<ChannelModel, ParseError>(ChannelModel { id: 0, ..c }));
}

/// Law: parse failures are field-specific and mutually exclusive. A record
/// whose frequency field does not parse fails with exactly the Frequency
/// error; one whose frequency field parses but whose modulation token is
/// unrecognized fails with exactly the Modulation error; and so on down the
/// reading order, so no two errors can be reported of one record.
pub proof fn lemma_field_errors_are_specific(s: Seq<char>)
    ensures
        !freq_field_ok(spec_field(s, 2)) <==> spec_parse(s) == Err::<ChannelModel, ParseError>(
            ParseError::Frequency,
        ),
        (freq_field_ok(spec_field(s, 2)) && spec_modulation_from(spec_field(s, 3)) is Err)
            <==> spec_parse(s) == Err::<ChannelModel, ParseError>(ParseError::Modulation),
        (freq_field_ok(spec_field(s, 2)) && spec_modulation_from(spec_field(s, 3)) is Ok
            && !uint_field_ok(spec_field(s, 5))) <==> spec_parse(s) == Err::<
            ChannelModel,
            ParseError,
        >(ParseError::Delay),
        (freq_field_ok(spec_field(s, 2)) && spec_modulation_from(spec_field(s, 3)) is Ok
            && uint_field_ok(spec_field(s, 5)) && !uint_field_ok(spec_field(s, 6)))
            <==> spec_parse(s) == Err::<ChannelModel, ParseError>(ParseError::Locked),
        (freq_field_ok(spec_field(s, 2)) && spec_modulation_from(spec_field(s, 3)) is Ok
            && uint_field_ok(spec_field(s, 5)) && uint_field_ok(spec_field(s, 6))
            && !uint_field_ok(spec_field(s, 7))) <==> spec_parse(s) == Err::<
            ChannelModel,
            ParseError,
        >(ParseError::Priority),
{
}

/// Law: the wire convention for booleans is 0 / nonzero, not 0 / 1: a record
/// that parses is locked exactly when its locked field names any nonzero
/// integer, and likewise for priority.
pub proof fn lemma_nonzero_means_true(s: Seq<char>)
    requires
        spec_parse(s) is Ok,
    ensures
        (spec_parse(s)->Ok_0).locked == (dec_value(spec_field(s, 6)) != 0),
        (spec_parse(s)->Ok_0).priority == (dec_value(spec_field(s, 7)) != 0),
{
}

// ---------------------------------------------------------------------------
// Request strings and reply framing
// ---------------------------------------------------------------------------

/// The request text of the wire protocol, before transport framing.
pub open spec fn spec_request_string(req: Request) -> Seq<char> {
    match req {
        Request::Model => seq!['M', 'D', 'L'],
        Request::Version => seq!['V', 'E', 'R'],
        Request::EnterProgrammingMode => seq!['P', 'R', 'G'],
        Request::ExitProgrammingMode => seq!['E', 'P', 'G'],
        Request::DownloadChannel(id) => seq!['C', 'I', 'N', ','] + dec_digits(id as nat),
        Request::UploadChannel(id, channel) => seq!['C', 'I', 'N', ','] + dec_digits(id as nat)
            + seq![','] + spec_serialize(channel@),
    }
}

fn request_string(req: &Request) -> (r: String)
    ensures
        r@ == spec_request_string(*req),
{
    proof {
        reveal_strlit("MDL");
        reveal_strlit("VER");
        reveal_strlit("PRG");
        reveal_strlit("EPG");
        reveal_strlit("CIN,");
        reveal_strlit(",");
    }
    match req {
        Request::Model => {
            let r = "MDL".to_owned();
            proof {
                assert(r@ =~= spec_request_string(*req));
            }
            r
        },
        Request::Version => {
            let r = "VER".to_owned();
            proof {
                assert(r@ =~= spec_request_string(*req));
            }
            r
        },
        Request::EnterProgrammingMode => {
            let r = "PRG".to_owned();
            proof {
                assert(r@ =~= spec_request_string(*req));
            }
            r
        },
        Request::ExitProgrammingMode => {
            let r = "EPG".to_owned();
            proof {
                assert(r@ =~= spec_request_string(*req));
            }
            r
        },
        Request::DownloadChannel(id) => {
            let mut r = "CIN,".to_owned();
            let digits = format_u64(*id as u64);
            r.append(digits.as_str());
            proof {
                assert(r@ =~= spec_request_string(*req));
            }
            r
        },
        Request::UploadChannel(id, channel) => {
            let mut r = "CIN,".to_owned();
            let digits = format_u64(*id as u64);
            r.append(digits.as_str());
            r.append(",");
            let record = serialize_channel(channel);
            r.append(record.as_str());
            proof {
                assert(r@ =~= spec_request_string(*req));
            }
            r
        },
    }
}

/// Strip the fixed command echo from a reply and trim the remainder. Every
/// reply echoes the three-letter command and a comma before the payload, so
/// the split position is the same for all commands.
pub fn strip_echo(response: &str) -> (r: String)
    requires
        response@.len() >= 4,
    ensures
        r@ == spec_trim(response@.subrange(4, response@.len() as int)),
{
    let n = response.unicode_len();
    let payload = response.substring_char(4, n);
    trim_str(payload).to_owned()
}

/// Decision after one bulk write: the write succeeded only if every byte was
/// moved; a short write means a wedged or disconnected device and is never
/// retried.
pub fn confirm_write(written: usize, expected: usize) -> (r: Result<(), UBC125XLTError>)
    ensures
        r is Ok <==> written == expected,
        r is Err ==> r->Err_0 == UBC125XLTError::WriteError,
{
    if written == expected {
        Ok(())
    } else {
        Err(UBC125XLTError::WriteError)
    }
}

// ---------------------------------------------------------------------------
// Session state machine
// ---------------------------------------------------------------------------

/// The protocol phase of one device session.
#[derive(Clone, Copy, PartialEq, Eq, Structural, Debug)]
pub enum SessionPhase {
    /// The handle is owned and the interface claimed; remote mode has not
    /// been entered, so only the mode-entry exchange is valid.
    Claimed,
    /// Remote mode is entered: every command other than mode entry is valid.
    RemoteMode,
    /// The single mode-exit exchange has been performed (whatever its reply);
    /// nothing further may be sent.
    Closed,
}

/// The decision core of a device session: it owns the protocol phase, builds
/// each request and interprets each reply. Its contracts enforce that remote
/// mode is entered before any command runs and that mode exit is performed
/// exactly once, on every path.
pub struct Session {
    phase: SessionPhase,
}

impl View for Session {
    type V = SessionPhase;

    closed spec fn view(&self) -> SessionPhase {
        self.phase
    }
}

impl Session {
    /// A session over a freshly claimed handle; remote mode not yet entered.
    pub fn new() -> (s: Session)
        ensures
            s@ is Claimed,
    {
        Session { phase: SessionPhase::Claimed }
    }

    /// The current protocol phase.
    pub fn phase(&self) -> (p: SessionPhase)
        ensures
            p == self@,
    {
        self.phase
    }

    /// The request text to send for `req`. Mode entry is valid only before
    /// remote mode; mode exit whenever the session is not closed; every other
    /// command only in remote mode.
    pub fn request_text(&self, req: &Request) -> (r: String)
        requires
            match *req {
                Request::EnterProgrammingMode => self@ is Claimed,
                Request::ExitProgrammingMode => !(self@ is Closed),
                _ => self@ is RemoteMode,
            },
        ensures
            r@ == spec_request_string(*req),
    {
        request_string(req)
    }

    /// Interpret the stripped reply to the mode-entry request: only the exact
    /// confirmation "OK" enters remote mode.
    pub fn handle_enter_reply(&mut self, reply: &str) -> (r: Result<(), UBC125XLTError>)
        requires
            old(self)@ is Claimed,
        ensures
            r is Ok <==> reply@ == "OK"@,
            r is Ok ==> final(self)@ is RemoteMode,
            r is Err ==> final(self)@ is Claimed && r->Err_0
                == UBC125XLTError::ProgrammingEnterError,
    {
        if str_eq(reply, "OK") {
            self.phase = SessionPhase::RemoteMode;
            Ok(())
        } else {
            Err(UBC125XLTError::ProgrammingEnterError)
        }
    }

    /// Interpret the stripped reply to the mode-exit request. The session is
    /// closed either way: the one exit attempt has been spent, and its
    /// failure is reported to the caller rather than swallowed.
    pub fn handle_exit_reply(&mut self, reply: &str) -> (r: Result<(), UBC125XLTError>)
        requires
            !(old(self)@ is Closed),
        ensures
            final(self)@ is Closed,
            r is Ok <==> reply@ == "OK"@,
            r is Err ==> r->Err_0 == UBC125XLTError::ProgrammingExitError,
    {
        self.phase = SessionPhase::Closed;
        if str_eq(reply, "OK") {
            Ok(())
        } else {
            Err(UBC125XLTError::ProgrammingExitError)
        }
    }

    /// Interpret the stripped reply to a download request: parse the record
    /// and assign the requested slot id. A malformed field is reported per
    /// record and leaves the session usable.
    pub fn handle_download_reply(&self, id: usize, reply: &str) -> (r: Result<
        Channel,
        ScannerError,
    >)
        requires
            self@ is RemoteMode,
        ensures
            spec_parse(reply@) is Ok ==> r is Ok && r->Ok_0@ == (ChannelModel {
                id: id as nat,
                ..spec_parse(reply@)->Ok_0
            }),
            spec_parse(reply@) is Err ==> (r is Err && r->Err_0 == ScannerError::Field(
                spec_parse(reply@)->Err_0,
            )),
    {
        match parse_channel(reply) {
            Ok(mut channel) => {
                channel.id = id;
                Ok(channel)
            },
            Err(e) => Err(ScannerError::Field(e)),
        }
    }

    /// Interpret the stripped reply to an upload request: only the exact
    /// confirmation "OK" is success. A rejection leaves the session in
    /// remote mode, usable for subsequent requests.
    pub fn handle_upload_reply(&self, reply: &str) -> (r: Result<(), UBC125XLTError>)
        requires
            self@ is RemoteMode,
        ensures
            r is Ok <==> reply@ == "OK"@,
            r is Err ==> r->Err_0 == UBC125XLTError::UploadError,
    {
        if str_eq(reply, "OK") {
            Ok(())
        } else {
            Err(UBC125XLTError::UploadError)
        }
    }

    /// The number of channels supported by this model.
    pub fn number_of_channels(&self) -> (n: usize)
        ensures
            n == CHANNEL_CAPACITY,
    {
        CHANNEL_CAPACITY
    }
}

} // verus!
