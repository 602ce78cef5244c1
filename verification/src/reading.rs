//! The decoded record and its model name.

use crate::decoder::{HUMIDITY_MAX, TEMP_LIMIT};
use vstd::prelude::*;
use vstd::string::StringSliceAdditionalSpecFns;
use vstd::utf8::{
    decode_utf8, encode_utf8, encode_utf8_decode_utf8, encode_utf8_valid_utf8, is_ascii_chars,
    is_ascii_chars_encode_utf8, valid_utf8,
};

verus! {

/// Number of bytes kept of a model name.
pub const MODEL_LEN: usize = 32;

/// A decoded record as a mathematical value.
pub struct Reading {
    /// The `MODEL_LEN` bytes of the model name field.
    pub model: Seq<u8>,
    /// `1` for zero and above, `-1` below zero.
    pub sign: int,
    /// Whole degrees Celsius, without the sign.
    pub temp_int: int,
    /// Tenths of a degree, without the sign.
    pub temp_decimal: int,
    /// Relative humidity in percent.
    pub humidity: int,
    /// `1` while the battery is good.
    pub battery_ok: int,
    /// Channel the sensor is set to, counted from one.
    pub channel: int,
    /// Identifier the sensor chose at power-up.
    pub id: int,
}

/// The name field made of a name's bytes: the first `MODEL_LEN` of them,
/// then zeros.
pub open spec fn name_field(bytes: Seq<u8>) -> Seq<u8> {
    Seq::new(
        MODEL_LEN as nat,
        |i: int|
            if i < bytes.len() {
                bytes[i]
            } else {
                0u8
            },
    )
}

/// Number of bytes before the first zero byte.
pub open spec fn name_len(bytes: Seq<u8>) -> int
    decreases bytes.len(),
{
    if bytes.len() == 0 || bytes[0] == 0 {
        0
    } else {
        1 + name_len(bytes.drop_first())
    }
}

/// The text held by a name field: the bytes before the first zero byte read
/// as UTF-8, or nothing where they are not UTF-8.
pub open spec fn name_text(field: Seq<u8>) -> Seq<char> {
    let bytes = field.take(name_len(field));
    if valid_utf8(bytes) {
        decode_utf8(bytes)
    } else {
        Seq::empty()
    }
}

impl Reading {
    /// The model name as text.
    pub open spec fn model_name(self) -> Seq<char> {
        name_text(self.model)
    }

    /// What holds of every reading that comes out of the decoder.
    pub open spec fn is_plausible(self) -> bool {
        &&& self.model.len() == MODEL_LEN
        &&& self.sign == 1 || self.sign == -1
        &&& 0 <= self.temp_int < TEMP_LIMIT
        &&& 0 <= self.temp_decimal <= 9
        &&& self.sign == -1 ==> self.temp_int > 0 || self.temp_decimal > 0
        &&& 0 <= self.humidity <= HUMIDITY_MAX
        &&& self.battery_ok == 0 || self.battery_ok == 1
        &&& 1 <= self.channel <= 4
        &&& 0 <= self.id <= 255
    }

    /// The relation by which two readings count as the same measurement:
    /// equal sign, whole degrees, tenths and humidity. Sensor id, channel,
    /// battery flag and model take no part in it.
    pub open spec fn same_measurement(self, other: Reading) -> bool {
        &&& self.sign == other.sign
        &&& self.temp_int == other.temp_int
        &&& self.temp_decimal == other.temp_decimal
        &&& self.humidity == other.humidity
    }
}

/// `name_len` is the position of the first zero byte, or the length where
/// there is none.
pub proof fn lemma_name_len(bytes: Seq<u8>, n: int)
    requires
        0 <= n <= bytes.len(),
        forall|j: int| 0 <= j < n ==> bytes[j] != 0,
        n == bytes.len() || bytes[n] == 0,
    ensures
        name_len(bytes) == n,
    decreases n,
{
    if n > 0 {
        let rest = bytes.drop_first();
        assert forall|j: int| 0 <= j < n - 1 implies rest[j] != 0 by {
            assert(rest[j] == bytes[j + 1]);
        }
        lemma_name_len(rest, n - 1);
    }
}

/// A decoded record.
#[derive(Clone, Copy, Debug)]
pub struct Parsed {
    /// The model name, padded with zero bytes.
    pub model: [u8; 32],
    pub sign: i32,
    pub temp_int: i32,
    pub temp_decimal: i32,
    pub humidity: i32,
    pub battery_ok: u8,
    pub channel: u8,
    pub id: u8,
}

impl View for Parsed {
    type V = Reading;

    open spec fn view(&self) -> Reading {
        Reading {
            model: self.model@,
            sign: self.sign as int,
            temp_int: self.temp_int as int,
            temp_decimal: self.temp_decimal as int,
            humidity: self.humidity as int,
            battery_ok: self.battery_ok as int,
            channel: self.channel as int,
            id: self.id as int,
        }
    }
}

impl Parsed {
    /// Builds a record. Of the model name the first `MODEL_LEN` bytes are
    /// kept.
    pub fn new(
        model: &str,
        sign: i32,
        temp_int: i32,
        temp_decimal: i32,
        humidity: i32,
        battery_ok: u8,
        channel: u8,
        id: u8,
    ) -> (r: Parsed)
        ensures
            r@.model == name_field(model.spec_bytes()),
            r.sign == sign,
            r.temp_int == temp_int,
            r.temp_decimal == temp_decimal,
            r.humidity == humidity,
            r.battery_ok == battery_ok,
            r.channel == channel,
            r.id == id,
    {
        let mut model_arr: [u8; 32] = [0u8; 32];
        let bytes = model.as_bytes();
        let len: usize = if bytes.len() < 32 {
            bytes.len()
        } else {
            32
        };
        let mut i: usize = 0;
        while i < len
            invariant
                i <= len <= 32,
                len <= bytes@.len(),
                forall|j: int| 0 <= j < i ==> model_arr@[j] == bytes@[j],
                forall|j: int| i <= j < 32 ==> model_arr@[j] == 0,
            decreases len - i,
        {
            model_arr[i] = bytes[i];
            i += 1;
        }
        assert(model_arr@ =~= name_field(model.spec_bytes()));
        Parsed { model: model_arr, sign, temp_int, temp_decimal, humidity, battery_ok, channel, id }
    }

    /// The model name: the bytes of the name field before the first zero
    /// byte, or the empty string where these are not UTF-8.
    pub fn model(&self) -> (name: &str)
        ensures
            name@ == self@.model_name(),
    {
        let mut len: usize = 0;
        while len < 32 && self.model[len] != 0
            invariant
                len <= 32,
                forall|j: int| 0 <= j < len ==> self.model@[j] != 0,
            decreases 32 - len,
        {
            len += 1;
        }
        proof {
            lemma_name_len(self.model@, len as int);
        }
        let field = self.model.as_slice();
        let bytes = &field[0..len];
        match core::str::from_utf8(bytes) {
            Ok(text) => {
                proof {
                    encode_utf8_decode_utf8(text@);
                }
                text
            },
            Err(_) => {
                proof {
                    reveal_strlit("");
                }
                ""
            },
        }
    }

    /// Whether `a` is the same measurement as `self`.
    pub fn equal(&self, a: &Parsed) -> (same: bool)
        ensures
            same == self@.same_measurement(a@),
    {
        self.sign == a.sign && self.temp_int == a.temp_int && self.temp_decimal == a.temp_decimal
            && self.humidity == a.humidity
    }
}

impl Default for Parsed {
    /// A placeholder record that no sensor sent.
    fn default() -> (r: Parsed)
        ensures
            r@.model == name_field("Unknown".spec_bytes()),
            r@.model_name() == "Unknown"@,
            r.sign == 1,
            r.temp_int == 10,
            r.temp_decimal == 0,
            r.humidity == 80,
            r.battery_ok == 1,
            r.channel == 0,
            r.id == 0,
    {
        proof {
            reveal_strlit("Unknown");
            lemma_name_round_trip("Unknown"@);
        }
        Parsed::new("Unknown", 1, 10, 0, 80, 1, 0, 0)
    }
}

/// The measurement relation is an equivalence, and it does not look at
/// sensor id, channel, battery flag or model.
pub proof fn lemma_same_measurement(a: Reading, b: Reading, c: Reading)
    ensures
        a.same_measurement(a),
        a.same_measurement(b) ==> b.same_measurement(a),
        a.same_measurement(b) && b.same_measurement(c) ==> a.same_measurement(c),
        a.same_measurement(
            Reading { model: b.model, battery_ok: b.battery_ok, channel: b.channel, id: b.id, ..a },
        ),
{
}

/// A name of at most `MODEL_LEN` ASCII characters, none of them the zero
/// character, is read back from its name field as it was written.
pub proof fn lemma_name_round_trip(name: Seq<char>)
    requires
        is_ascii_chars(name),
        name.len() <= MODEL_LEN,
        forall|i: int| 0 <= i < name.len() ==> name[i] != '\0',
    ensures
        name_text(name_field(encode_utf8(name))) == name,
{
    let bytes = encode_utf8(name);
    let field = name_field(bytes);
    is_ascii_chars_encode_utf8(name);
    assert forall|j: int| 0 <= j < bytes.len() implies field[j] != 0 by {
        assert(bytes[j] == name[j] as u8);
        assert(name[j] != '\0');
    }
    lemma_name_len(field, bytes.len() as int);
    assert(field.take(bytes.len() as int) =~= bytes);
    encode_utf8_valid_utf8(name);
    encode_utf8_decode_utf8(name);
}

} // verus!
