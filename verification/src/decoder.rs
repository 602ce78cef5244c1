//! The codec for the sensor's wire format.
//!
//! A transmission is a run of symbols, each a carrier burst and a pause.
//! The length of the pause carries one bit. A frame is 36 such bits and a
//! terminator:
//!
//! | bits     | field                                   |
//! |----------|-----------------------------------------|
//! | 0 - 7    | sensor id                               |
//! | 8        | battery flag                            |
//! | 9        | not read                                |
//! | 10 - 11  | channel, counted from zero              |
//! | 12 - 23  | temperature in tenths of a degree       |
//! | 24 - 27  | not read                                |
//! | 28 - 35  | relative humidity in percent            |
//!
//! Every field is sent most significant bit first.

use crate::pulse::{Level, Symbol};
pub use crate::reading::{Parsed, Reading, MODEL_LEN};
use crate::reading::{lemma_name_round_trip, name_field, name_text};
use vstd::arithmetic::power2::{lemma2_to64, lemma_pow2_unfold, pow2};
use vstd::prelude::*;
use vstd::utf8::encode_utf8;

verus! {

/// Number of payload bits in one frame.
pub const PAYLOAD_LEN: usize = 36;

/// Number of symbols in one frame: the payload bits and the terminator.
pub const FRAME_LEN: usize = 37;

/// Shortest carrier burst, in microseconds.
pub const PULSE_MIN: u16 = 300;

/// One past the longest carrier burst, in microseconds.
pub const PULSE_MAX: u16 = 650;

/// Shortest pause that reads as a one, in microseconds.
pub const MIN_HIGH: u16 = 1650;

/// One past the longest pause that reads as a one, in microseconds.
pub const MAX_HIGH: u16 = 2150;

/// Shortest pause that reads as a zero, in microseconds.
pub const MIN_LOW: u16 = 800;

/// One past the longest pause that reads as a zero, in microseconds.
pub const MAX_LOW: u16 = 1100;

/// First bit of the sensor id.
pub const ID_START: usize = 0;

/// Width of the sensor id.
pub const ID_BITS: usize = 8;

/// Position of the battery flag.
pub const BATTERY_START: usize = 8;

/// First bit of the channel number.
pub const CHANNEL_START: usize = 10;

/// Width of the channel number.
pub const CHANNEL_BITS: usize = 2;

/// First bit of the temperature.
pub const TEMP_START: usize = 12;

/// Width of the temperature.
pub const TEMP_BITS: usize = 12;

/// First bit of the humidity.
pub const HUMIDITY_START: usize = 28;

/// Width of the humidity.
pub const HUMIDITY_BITS: usize = 8;

/// Largest raw temperature that is not below zero.
pub const TEMP_FOLD: u32 = 2048;

/// One past the largest whole degree that is believed.
pub const TEMP_LIMIT: i32 = 60;

/// Largest humidity reported.
pub const HUMIDITY_MAX: u32 = 100;

/// Why a pulse run was not turned into a reading.
#[derive(Clone, Copy, Debug, PartialEq, Eq, Structural)]
pub enum DecodeError {
    /// The run does not have `FRAME_LEN` symbols; holds the length it has.
    WrongPayloadLen(usize),
    /// A pause is neither a zero nor a one; holds its duration.
    SampleOutOfRange(u16),
    /// A carrier burst is outside its window; holds its duration.
    PulseOutOfRange(u16),
    /// The frame is from another channel; holds the channel it names.
    WrongChannel(u8),
    /// The temperature is outside the range that is believed; holds its
    /// sign and whole degrees.
    TempOutOfRange(i32, i32),
}

// Pulse classifier

/// The window of a carrier burst.
pub open spec fn is_carrier(duration: u16) -> bool {
    PULSE_MIN <= duration < PULSE_MAX
}

/// The "short" window: a pause that reads as a zero.
pub open spec fn is_short(duration: u16) -> bool {
    MIN_LOW <= duration < MAX_LOW
}

/// The "long" window: a pause that reads as a one.
pub open spec fn is_long(duration: u16) -> bool {
    MIN_HIGH <= duration < MAX_HIGH
}

/// The bit that a pause of this duration stands for, if any.
pub open spec fn bit_of(duration: u16) -> Option<u8> {
    if is_long(duration) {
        Some(1u8)
    } else if is_short(duration) {
        Some(0u8)
    } else {
        None
    }
}

/// No duration lies in two of the three windows.
pub proof fn lemma_windows_disjoint(duration: u16)
    ensures
        !(is_short(duration) && is_long(duration)),
        !(is_carrier(duration) && is_short(duration)),
        !(is_carrier(duration) && is_long(duration)),
{
}

/// Reads one pause as a bit: 0 in the short window, 1 in the long window,
/// and a range error carrying the duration anywhere else.
pub fn classify(duration: u16) -> (r: Result<u8, DecodeError>)
    ensures
        r == Ok::<u8, DecodeError>(0) <==> is_short(duration),
        r == Ok::<u8, DecodeError>(1) <==> is_long(duration),
        r == Err::<u8, DecodeError>(DecodeError::SampleOutOfRange(duration)) <==> !is_short(
            duration,
        ) && !is_long(duration),
        r is Ok ==> bit_of(duration) == Some(r->Ok_0),
        r is Err ==> bit_of(duration) is None,
{
    if MIN_HIGH <= duration && duration < MAX_HIGH {
        Ok(1)
    } else if MIN_LOW <= duration && duration < MAX_LOW {
        Ok(0)
    } else {
        Err(DecodeError::SampleOutOfRange(duration))
    }
}

// Bit fields

/// The first of the `width` samples from `start` on that is not a bit.
pub open spec fn first_unreadable(samples: Seq<u16>, start: int, width: int) -> Option<u16>
    decreases width,
{
    if width <= 0 {
        None
    } else {
        match first_unreadable(samples, start, width - 1) {
            Some(d) => Some(d),
            None => if bit_of(samples[start + width - 1]) is None {
                Some(samples[start + width - 1])
            } else {
                None
            },
        }
    }
}

/// The unsigned number spelled by the `width` samples from `start` on, most
/// significant bit first.
pub open spec fn field_value(samples: Seq<u16>, start: int, width: int) -> nat
    decreases width,
{
    if width <= 0 {
        0
    } else {
        2 * field_value(samples, start, width - 1) + match bit_of(samples[start + width - 1]) {
            Some(b) => b as nat,
            None => 0,
        }
    }
}

/// What reading a bit field gives: its value, or the range error of the
/// first sample in it that is not a bit. Of a field wider than 32 bits the
/// lowest 32 bits are the value.
pub open spec fn read_field(samples: Seq<u16>, start: int, width: int) -> Result<u32, DecodeError> {
    match first_unreadable(samples, start, width) {
        Some(d) => Err(DecodeError::SampleOutOfRange(d)),
        None => Ok((field_value(samples, start, width) % 0x1_0000_0000) as u32),
    }
}

/// A field of `width` bits is below two to the `width`.
pub proof fn lemma_field_value_bound(samples: Seq<u16>, start: int, width: int)
    requires
        0 <= width,
    ensures
        field_value(samples, start, width) < pow2(width as nat),
    decreases width,
{
    if width == 0 {
        lemma2_to64();
    } else {
        lemma_field_value_bound(samples, start, width - 1);
        lemma_pow2_unfold(width as nat);
    }
}

/// A field is read without error exactly when each of its samples is a bit,
/// and an error reports the earliest sample that is not.
pub proof fn lemma_first_unreadable(samples: Seq<u16>, start: int, width: int)
    requires
        0 <= width,
    ensures
        first_unreadable(samples, start, width) is None <==> forall|i: int|
            start <= i < start + width ==> bit_of(#[trigger] samples[i]) is Some,
        first_unreadable(samples, start, width) matches Some(d) ==> exists|i: int|
            start <= i < start + width && #[trigger] samples[i] == d && bit_of(d) is None
                && forall|j: int| start <= j < i ==> bit_of(#[trigger] samples[j]) is Some,
    decreases width,
{
    if width > 0 {
        lemma_first_unreadable(samples, start, width - 1);
        let last = start + width - 1;
        match first_unreadable(samples, start, width - 1) {
            Some(d) => {
                let i = choose|i: int|
                    start <= i < start + width - 1 && #[trigger] samples[i] == d && bit_of(d) is None
                        && forall|j: int| start <= j < i ==> bit_of(#[trigger] samples[j]) is Some;
                assert(start <= i < start + width && samples[i] == d);
            },
            None => {
                if bit_of(samples[last]) is None {
                    assert(start <= last < start + width && samples[last] == samples[last]);
                } else {
                    assert forall|i: int| start <= i < start + width implies bit_of(
                        #[trigger] samples[i],
                    ) is Some by {
                        if i < last {
                        }
                    }
                }
            },
        }
    }
}

/// Once a sample that is not a bit has been met, every wider field from the
/// same start reports that sample.
proof fn lemma_first_unreadable_stays(samples: Seq<u16>, start: int, at: int, width: int)
    requires
        0 <= at < width,
        first_unreadable(samples, start, at) is None,
        bit_of(samples[start + at]) is None,
    ensures
        first_unreadable(samples, start, width) == Some(samples[start + at]),
    decreases width,
{
    if width > at + 1 {
        lemma_first_unreadable_stays(samples, start, at, width - 1);
    }
}

/// Reads the bit field of `size` samples that begins at `start`, most
/// significant bit first.
pub fn decode_range(samples: &[u16], start: usize, size: usize) -> (r: Result<u32, DecodeError>)
    requires
        start + size <= samples@.len(),
    ensures
        r == read_field(samples@, start as int, size as int),
{
    let total: usize = samples.len();
    let mut value: u32 = 0;
    let mut i: usize = 0;
    while i < size
        invariant
            i <= size,
            start + size <= total == samples@.len(),
            first_unreadable(samples@, start as int, i as int) is None,
            value == field_value(samples@, start as int, i as int) % 0x1_0000_0000,
        decreases size - i,
    {
        let sample: u16 = samples[start + i];
        match classify(sample) {
            Ok(bit) => {
                let wide: u32 = bit as u32;
                assert(((value << 1u32) | wide) == (2 * value + wide) % 0x1_0000_0000)
                    by (bit_vector)
                    requires
                        wide <= 1,
                ;
                value = (value << 1u32) | wide;
            },
            Err(e) => {
                proof {
                    lemma_first_unreadable_stays(samples@, start as int, i as int, size as int);
                }
                return Err(e);
            },
        }
        i += 1;
    }
    Ok(value)
}

// Frame validator

/// The duration of the first carrier burst of a symbol that is outside the
/// carrier window. The first half is looked at before the second.
pub open spec fn carrier_fault(symbol: Symbol) -> Option<u16> {
    if symbol.first.level == Level::High && !is_carrier(symbol.first.duration) {
        Some(symbol.first.duration)
    } else if symbol.second.level == Level::High && !is_carrier(symbol.second.duration) {
        Some(symbol.second.duration)
    } else {
        None
    }
}

/// The earliest carrier fault among the first `count` symbols.
pub open spec fn first_carrier_fault(frame: Seq<Symbol>, count: int) -> Option<u16>
    decreases count,
{
    if count <= 0 {
        None
    } else {
        match first_carrier_fault(frame, count - 1) {
            Some(d) => Some(d),
            None => carrier_fault(frame[count - 1]),
        }
    }
}

/// What validating a pulse run of reported length `len` gives: a length
/// error unless it has `FRAME_LEN` symbols, then a pulse error for the
/// earliest carrier burst outside its window.
pub open spec fn frame_check(frame: Seq<Symbol>, len: usize) -> Result<(), DecodeError> {
    if len != FRAME_LEN {
        Err(DecodeError::WrongPayloadLen(len))
    } else {
        match first_carrier_fault(frame, FRAME_LEN as int) {
            Some(d) => Err(DecodeError::PulseOutOfRange(d)),
            None => Ok(()),
        }
    }
}

/// The earliest carrier fault among the first symbols is none exactly when
/// none of them has one.
pub proof fn lemma_first_carrier_fault(frame: Seq<Symbol>, count: int)
    requires
        0 <= count,
    ensures
        first_carrier_fault(frame, count) is None <==> forall|i: int|
            0 <= i < count ==> carrier_fault(#[trigger] frame[i]) is None,
    decreases count,
{
    if count > 0 {
        lemma_first_carrier_fault(frame, count - 1);
        if first_carrier_fault(frame, count - 1) is None && carrier_fault(frame[count - 1])
            is None {
            assert forall|i: int| 0 <= i < count implies carrier_fault(#[trigger] frame[i])
                is None by {
                if i < count - 1 {
                }
            }
        }
    }
}

/// Once a carrier fault has been met, every longer prefix reports it.
proof fn lemma_first_carrier_fault_stays(frame: Seq<Symbol>, at: int, count: int)
    requires
        0 <= at < count,
        first_carrier_fault(frame, at) is None,
        carrier_fault(frame[at]) is Some,
    ensures
        first_carrier_fault(frame, count) == carrier_fault(frame[at]),
    decreases count,
{
    if count > at + 1 {
        lemma_first_carrier_fault_stays(frame, at, count - 1);
    }
}

/// Checks the carrier bursts of one symbol against the carrier window.
pub fn check_carrier(symbol: &Symbol) -> (r: Result<(), DecodeError>)
    ensures
        r == match carrier_fault(*symbol) {
            Some(d) => Err::<(), DecodeError>(DecodeError::PulseOutOfRange(d)),
            None => Ok(()),
        },
{
    if symbol.first.level == Level::High && !(PULSE_MIN <= symbol.first.duration
        && symbol.first.duration < PULSE_MAX) {
        return Err(DecodeError::PulseOutOfRange(symbol.first.duration));
    }
    if symbol.second.level == Level::High && !(PULSE_MIN <= symbol.second.duration
        && symbol.second.duration < PULSE_MAX) {
        return Err(DecodeError::PulseOutOfRange(symbol.second.duration));
    }
    Ok(())
}

/// Checks a pulse run as a whole before any bit of it is read: its reported
/// length, then every carrier burst of its `len` symbols.
///
/// A run reported as a whole frame has to hold that many symbols.
pub fn validate_frame(pulses: &[Symbol], len: usize) -> (r: Result<(), DecodeError>)
    requires
        len == FRAME_LEN ==> pulses@.len() >= FRAME_LEN,
    ensures
        r == frame_check(pulses@, len),
{
    if len != FRAME_LEN {
        return Err(DecodeError::WrongPayloadLen(len));
    }
    let mut i: usize = 0;
    while i < FRAME_LEN
        invariant
            len == FRAME_LEN,
            i <= FRAME_LEN <= pulses@.len(),
            first_carrier_fault(pulses@, i as int) is None,
        decreases FRAME_LEN - i,
    {
        let symbol = &pulses[i];
        match check_carrier(symbol) {
            Ok(_) => {},
            Err(e) => {
                proof {
                    lemma_first_carrier_fault_stays(pulses@, i as int, FRAME_LEN as int);
                }
                return Err(e);
            },
        }
        i += 1;
    }
    Ok(())
}

// Field extractor

/// The pause of each symbol of a frame, in order.
pub open spec fn pause_samples(frame: Seq<Symbol>) -> Seq<u16> {
    Seq::new(FRAME_LEN as nat, |i: int| frame[i].spec_pause())
}

/// Sign and magnitude, in tenths of a degree, spelled by a raw 12-bit
/// temperature. Raw values above `TEMP_FOLD` are below zero and count down
/// from 4096; `TEMP_FOLD` itself is not below zero.
pub open spec fn folded(raw: int) -> (int, int) {
    if raw > TEMP_FOLD {
        (-1, 4096 - raw)
    } else {
        (1, raw)
    }
}

/// Sign, whole degrees and tenths spelled by a raw 12-bit temperature, or
/// the range error where the whole degrees are not below `TEMP_LIMIT`.
pub open spec fn temperature_of(raw: int) -> Result<(int, int, int), DecodeError> {
    let (sign, tenths) = folded(raw);
    if 0 <= tenths / 10 < TEMP_LIMIT {
        Ok((sign, tenths / 10, tenths % 10))
    } else {
        Err(DecodeError::TempOutOfRange(sign as i32, (tenths / 10) as i32))
    }
}

/// The humidity spelled by a raw value: the value itself up to
/// `HUMIDITY_MAX`, and `HUMIDITY_MAX` above it.
pub open spec fn humidity_of(raw: int) -> int {
    if raw > HUMIDITY_MAX {
        HUMIDITY_MAX as int
    } else {
        raw
    }
}

/// The model name that every decoded reading carries.
pub open spec fn model_name() -> Seq<char> {
    "Nexus-TH"@
}

/// The reading spelled by the pauses of a frame for a receiver on channel
/// `ch`, or the first error met. Temperature is read first, then humidity,
/// battery flag, channel and sensor id; the channel is compared last.
pub open spec fn extract(samples: Seq<u16>, ch: u8) -> Result<Reading, DecodeError> {
    match read_field(samples, TEMP_START as int, TEMP_BITS as int) {
        Err(e) => Err(e),
        Ok(raw_temp) => match temperature_of(raw_temp as int) {
            Err(e) => Err(e),
            Ok((sign, temp_int, temp_decimal)) => match read_field(
                samples,
                HUMIDITY_START as int,
                HUMIDITY_BITS as int,
            ) {
                Err(e) => Err(e),
                Ok(raw_humidity) => match read_field(samples, BATTERY_START as int, 1) {
                    Err(e) => Err(e),
                    Ok(battery) => match read_field(
                        samples,
                        CHANNEL_START as int,
                        CHANNEL_BITS as int,
                    ) {
                        Err(e) => Err(e),
                        Ok(raw_channel) => match read_field(
                            samples,
                            ID_START as int,
                            ID_BITS as int,
                        ) {
                            Err(e) => Err(e),
                            Ok(id) => if ch != raw_channel + 1 {
                                Err(DecodeError::WrongChannel((raw_channel + 1) as u8))
                            } else {
                                Ok(
                                    Reading {
                                        model: name_field(encode_utf8(model_name())),
                                        sign,
                                        temp_int,
                                        temp_decimal,
                                        humidity: humidity_of(raw_humidity as int),
                                        battery_ok: battery as int,
                                        channel: raw_channel + 1,
                                        id: id as int,
                                    },
                                )
                            },
                        },
                    },
                },
            },
        },
    }
}

/// Splits a raw 12-bit temperature into sign and magnitude in tenths of a
/// degree.
pub fn fold_temperature(raw: u32) -> (r: (i32, i32))
    requires
        raw < 4096,
    ensures
        (r.0 as int, r.1 as int) == folded(raw as int),
{
    if raw > TEMP_FOLD {
        (-1, 4096 - raw as i32)
    } else {
        (1, raw as i32)
    }
}

/// Splits a raw 12-bit temperature into sign, whole degrees and tenths.
pub fn decode_temperature(raw: u32) -> (r: Result<(i32, i32, i32), DecodeError>)
    requires
        raw < 4096,
    ensures
        match r {
            Ok((sign, temp_int, temp_decimal)) => temperature_of(raw as int) == Ok::<
                (int, int, int),
                DecodeError,
            >((sign as int, temp_int as int, temp_decimal as int)),
            Err(e) => temperature_of(raw as int) == Err::<(int, int, int), DecodeError>(e),
        },
{
    let (sign, temp_10x) = fold_temperature(raw);
    let temp_int: i32 = temp_10x / 10;
    let temp_decimal: i32 = temp_10x % 10;
    if !(0 <= temp_int && temp_int < TEMP_LIMIT) {
        return Err(DecodeError::TempOutOfRange(sign, temp_int));
    }
    Ok((sign, temp_int, temp_decimal))
}

/// Brings a raw humidity down to at most `HUMIDITY_MAX`.
pub fn clamp_humidity(raw: u32) -> (humidity: i32)
    ensures
        humidity == humidity_of(raw as int),
{
    if raw > HUMIDITY_MAX {
        100
    } else {
        raw as i32
    }
}

// Decoder

/// What decoding a pulse run gives: the error of `frame_check` where there
/// is one, and else what `extract` reads from the pauses.
pub open spec fn decode_spec(frame: Seq<Symbol>, ch: u8, len: usize) -> Result<
    Reading,
    DecodeError,
> {
    match frame_check(frame, len) {
        Err(e) => Err(e),
        Ok(_) => extract(pause_samples(frame), ch),
    }
}

/// Decodes the first `len` symbols of a pulse run for a receiver on channel
/// `ch`.
///
/// A run reported as a whole frame has to hold that many symbols.
pub fn decode(pulses: &[Symbol], ch: u8, len: usize) -> (r: Result<Parsed, DecodeError>)
    requires
        len == FRAME_LEN ==> pulses@.len() >= FRAME_LEN,
    ensures
        match r {
            Ok(parsed) => decode_spec(pulses@, ch, len) == Ok::<Reading, DecodeError>(parsed@),
            Err(e) => decode_spec(pulses@, ch, len) == Err::<Reading, DecodeError>(e),
        },
        r matches Ok(parsed) ==> parsed@.is_plausible() && parsed.channel == ch
            && parsed@.model_name() == model_name(),
        len != FRAME_LEN ==> r == Err::<Parsed, DecodeError>(DecodeError::WrongPayloadLen(len)),
{
    proof {
        lemma_extract_is_plausible(pause_samples(pulses@), ch);
    }
    match validate_frame(pulses, len) {
        Ok(_) => {},
        Err(e) => {
            return Err(e);
        },
    }
    let mut samples: [u16; 37] = [0u16; 37];
    let mut idx: usize = 0;
    while idx < FRAME_LEN
        invariant
            idx <= FRAME_LEN <= pulses@.len(),
            forall|j: int| 0 <= j < idx ==> samples@[j] == pulses@[j].spec_pause(),
        decreases FRAME_LEN - idx,
    {
        samples[idx] = pulses[idx].pause();
        idx += 1;
    }
    assert(samples@ =~= pause_samples(pulses@));
    let samples = samples.as_slice();
    proof {
        lemma2_to64();
        lemma_field_value_bound(samples@, TEMP_START as int, TEMP_BITS as int);
        lemma_field_value_bound(samples@, HUMIDITY_START as int, HUMIDITY_BITS as int);
        lemma_field_value_bound(samples@, BATTERY_START as int, 1);
        lemma_field_value_bound(samples@, CHANNEL_START as int, CHANNEL_BITS as int);
        lemma_field_value_bound(samples@, ID_START as int, ID_BITS as int);
    }
    let raw_temp: u32 = match decode_range(samples, TEMP_START, TEMP_BITS) {
        Ok(v) => v,
        Err(e) => {
            return Err(e);
        },
    };
    let (sign, temp_int, temp_decimal) = match decode_temperature(raw_temp) {
        Ok(t) => t,
        Err(e) => {
            return Err(e);
        },
    };
    let raw_humidity: u32 = match decode_range(samples, HUMIDITY_START, HUMIDITY_BITS) {
        Ok(v) => v,
        Err(e) => {
            return Err(e);
        },
    };
    let humidity: i32 = clamp_humidity(raw_humidity);
    let battery_ok: u8 = match decode_range(samples, BATTERY_START, 1) {
        Ok(v) => v as u8,
        Err(e) => {
            return Err(e);
        },
    };
    let channel: u8 = match decode_range(samples, CHANNEL_START, CHANNEL_BITS) {
        Ok(v) => (v + 1) as u8,
        Err(e) => {
            return Err(e);
        },
    };
    let id: u8 = match decode_range(samples, ID_START, ID_BITS) {
        Ok(v) => v as u8,
        Err(e) => {
            return Err(e);
        },
    };
    if ch != channel {
        return Err(DecodeError::WrongChannel(channel));
    }
    Ok(Parsed::new("Nexus-TH", sign, temp_int, temp_decimal, humidity, battery_ok, channel, id))
}

// Laws

/// The model name that the decoder writes is read back as it was written.
pub proof fn lemma_model_name()
    ensures
        name_text(name_field(encode_utf8(model_name()))) == model_name(),
{
    reveal_strlit("Nexus-TH");
    lemma_name_round_trip(model_name());
}

/// Every reading that is extracted is plausible, is on the channel asked
/// for, and carries the decoder's model name.
pub proof fn lemma_extract_is_plausible(samples: Seq<u16>, ch: u8)
    ensures
        extract(samples, ch) matches Ok(reading) ==> reading.is_plausible() && reading.channel == ch
            && reading.model_name() == model_name(),
{
    lemma2_to64();
    lemma_field_value_bound(samples, TEMP_START as int, TEMP_BITS as int);
    lemma_field_value_bound(samples, HUMIDITY_START as int, HUMIDITY_BITS as int);
    lemma_field_value_bound(samples, BATTERY_START as int, 1);
    lemma_field_value_bound(samples, CHANNEL_START as int, CHANNEL_BITS as int);
    lemma_field_value_bound(samples, ID_START as int, ID_BITS as int);
    lemma_model_name();
}

/// The positions of a frame whose pauses are read as bits: sensor id and
/// battery flag, channel and temperature, and humidity. The pauses at the
/// other positions, the terminator among them, are never read.
pub open spec fn is_data_position(i: int) -> bool {
    ||| ID_START <= i < BATTERY_START + 1
    ||| CHANNEL_START <= i < TEMP_START + TEMP_BITS
    ||| HUMIDITY_START <= i < HUMIDITY_START + HUMIDITY_BITS
}

/// When decoding succeeds: the run has the length of a frame, every carrier
/// burst of it is inside the carrier window, every pause at a data position
/// is a bit, the temperature is in range, and the channel is the one asked
/// for.
pub proof fn lemma_decode_succeeds_iff(frame: Seq<Symbol>, ch: u8, len: usize)
    ensures
        decode_spec(frame, ch, len) is Ok <==> {
            &&& len == FRAME_LEN
            &&& forall|i: int| 0 <= i < FRAME_LEN ==> carrier_fault(#[trigger] frame[i]) is None
            &&& forall|i: int|
                0 <= i < FRAME_LEN && is_data_position(i) ==> bit_of(
                    #[trigger] pause_samples(frame)[i],
                ) is Some
            &&& temperature_of(
                field_value(pause_samples(frame), TEMP_START as int, TEMP_BITS as int) as int,
            ) is Ok
            &&& field_value(pause_samples(frame), CHANNEL_START as int, CHANNEL_BITS as int) + 1
                == ch
        },
{
    let samples = pause_samples(frame);
    lemma_first_carrier_fault(frame, FRAME_LEN as int);
    lemma_first_unreadable(samples, TEMP_START as int, TEMP_BITS as int);
    lemma_first_unreadable(samples, HUMIDITY_START as int, HUMIDITY_BITS as int);
    lemma_first_unreadable(samples, BATTERY_START as int, 1);
    lemma_first_unreadable(samples, CHANNEL_START as int, CHANNEL_BITS as int);
    lemma_first_unreadable(samples, ID_START as int, ID_BITS as int);
    lemma2_to64();
    lemma_field_value_bound(samples, TEMP_START as int, TEMP_BITS as int);
    lemma_field_value_bound(samples, CHANNEL_START as int, CHANNEL_BITS as int);
    let all_bits = forall|i: int|
        0 <= i < FRAME_LEN && is_data_position(i) ==> bit_of(#[trigger] samples[i]) is Some;
    if all_bits {
        assert forall|i: int| TEMP_START <= i < TEMP_START + TEMP_BITS implies bit_of(
            #[trigger] samples[i],
        ) is Some by {
            assert(is_data_position(i));
        }
        assert forall|i: int| HUMIDITY_START <= i < HUMIDITY_START + HUMIDITY_BITS implies bit_of(
            #[trigger] samples[i],
        ) is Some by {
            assert(is_data_position(i));
        }
        assert forall|i: int| BATTERY_START <= i < BATTERY_START + 1 implies bit_of(
            #[trigger] samples[i],
        ) is Some by {
            assert(is_data_position(i));
        }
        assert forall|i: int| CHANNEL_START <= i < CHANNEL_START + CHANNEL_BITS implies bit_of(
            #[trigger] samples[i],
        ) is Some by {
            assert(is_data_position(i));
        }
        assert forall|i: int| ID_START <= i < ID_START + ID_BITS implies bit_of(
            #[trigger] samples[i],
        ) is Some by {
            assert(is_data_position(i));
        }
    }
    if decode_spec(frame, ch, len) is Ok {
        assert(all_bits);
    }
}

/// Two runs whose first `count` symbols agree have the same earliest carrier
/// fault among them.
proof fn lemma_same_carrier_faults(a: Seq<Symbol>, b: Seq<Symbol>, count: int)
    requires
        forall|i: int| 0 <= i < count ==> a[i] == b[i],
    ensures
        first_carrier_fault(a, count) == first_carrier_fault(b, count),
    decreases count,
{
    if count > 0 {
        lemma_same_carrier_faults(a, b, count - 1);
    }
}

/// Decoding is a function of the first `FRAME_LEN` symbols of a run, the
/// channel and the reported length, and of nothing else: two runs that agree
/// in those symbols decode alike.
pub proof fn lemma_decode_reads_the_frame_only(a: Seq<Symbol>, b: Seq<Symbol>, ch: u8, len: usize)
    requires
        forall|i: int| 0 <= i < FRAME_LEN ==> a[i] == b[i],
    ensures
        decode_spec(a, ch, len) == decode_spec(b, ch, len),
{
    lemma_same_carrier_faults(a, b, FRAME_LEN as int);
    assert(pause_samples(a) =~= pause_samples(b));
}

} // verus!
