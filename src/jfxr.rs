use vstd::prelude::*;
use vstd::string::StringSliceAdditionalSpecFns;
use vstd::utf8::encode_utf8_decode_utf8;
use crate::parameter::{Waveform, WAVEFORMS};

verus! {

/// json::JsonValue, carried through unopened: a parsed JSON value.
#[verifier::external_type_specification]
#[verifier::external_body]
pub struct ExJsonValue(json::JsonValue);

/// json::Error, carried through unopened: why a text is not JSON.
#[verifier::external_type_specification]
#[verifier::external_body]
pub struct ExJsonError(json::Error);

/// json::object::Object, carried through unopened: a JSON object's fields.
#[verifier::external_type_specification]
#[verifier::external_body]
pub struct ExJsonObject(json::object::Object);

/// json::number::Number, carried through unopened: a decimal number as a
/// sign, a mantissa and a power-of-ten exponent.
#[verifier::external_type_specification]
#[verifier::external_body]
pub struct ExJsonNumber(json::number::Number);

/// Longest run of consecutive ASCII digits the JSON parser is handed: it
/// counts the digits of a fraction down in an `i16` exponent.
pub const MAX_DIGIT_RUN: usize = 32767;

/// Whether a byte is an ASCII decimal digit.
pub open spec fn is_digit(b: u8) -> bool {
    48 <= b <= 57
}

/// Length of the run of digits that ends just before byte `i`.
pub open spec fn digit_run(b: Seq<u8>, i: nat) -> nat
    decreases i,
{
    if i == 0 || i > b.len() {
        0
    } else if is_digit(b[i - 1]) {
        digit_run(b, (i - 1) as nat) + 1
    } else {
        0
    }
}

/// No run of consecutive digits in `b` is longer than `MAX_DIGIT_RUN`.
pub open spec fn digit_runs_short(b: Seq<u8>) -> bool {
    forall|i: nat| i <= b.len() ==> #[trigger] digit_run(b, i) <= MAX_DIGIT_RUN
}

/// What json::parse makes of a text.
pub uninterp spec fn parse_of(text: Seq<char>) -> json::Result<json::JsonValue>;

/// The object a JSON value is, if it is one.
pub uninterp spec fn object_of(v: json::JsonValue) -> Option<json::object::Object>;

/// The value an object stores under a key, if any.
pub uninterp spec fn field_of(o: json::object::Object, key: Seq<char>) -> Option<json::JsonValue>;

/// What json::JsonValue::as_u32 makes of a value.
pub uninterp spec fn u32_of(v: json::JsonValue) -> Option<u32>;

/// What json::JsonValue::as_bool makes of a value.
pub uninterp spec fn bool_of(v: json::JsonValue) -> Option<bool>;

/// What json::JsonValue::as_str makes of a value.
pub uninterp spec fn str_of(v: json::JsonValue) -> Option<Seq<char>>;

/// What json::JsonValue::as_number makes of a value.
pub uninterp spec fn number_of(v: json::JsonValue) -> Option<json::number::Number>;

/// What json::number::Number::as_parts makes of a number.
pub uninterp spec fn parts_of(n: json::number::Number) -> (bool, u64, i16);

/// Relies on json::parse: reads a JSON document, or reports why it cannot;
/// the result depends on the text alone. The parser counts a fraction's
/// digits down in an `i16`, so overlong digit runs are left out.
pub assume_specification[ json::parse ](source: &str) -> (r: json::Result<json::JsonValue>)
    requires
        digit_runs_short(source.spec_bytes()),
    ensures
        r == parse_of(source@),
;

/// Relies on json::object::Object::get: the value stored under a key, if any.
pub assume_specification<'a, 'b>[ json::object::Object::get ](
    o: &'a json::object::Object,
    key: &'b str,
) -> (r: Option<&'a json::JsonValue>)
    ensures
        r is None <==> field_of(*o, key@) is None,
        r matches Some(v) ==> field_of(*o, key@) == Some(*v),
;

/// Relies on json::JsonValue::as_u32: a non-negative integer that fits a
/// `u32`, else `None`.
pub assume_specification[ json::JsonValue::as_u32 ](v: &json::JsonValue) -> (r: Option<u32>)
    ensures
        r == u32_of(*v),
;

/// Relies on json::JsonValue::as_bool: a boolean, else `None`.
pub assume_specification[ json::JsonValue::as_bool ](v: &json::JsonValue) -> (r: Option<bool>)
    ensures
        r == bool_of(*v),
;

/// Relies on json::JsonValue::as_str: a string, else `None`.
pub assume_specification[ json::JsonValue::as_str ](v: &json::JsonValue) -> (r: Option<&str>)
    ensures
        r is None <==> str_of(*v) is None,
        r matches Some(t) ==> str_of(*v) == Some(t@),
;

/// Relies on json::JsonValue::as_number: the number a value is, else `None`.
pub assume_specification[ json::JsonValue::as_number ](v: &json::JsonValue) -> (r: Option<
    json::number::Number,
>)
    ensures
        r == number_of(*v),
;

/// Relies on json::number::Number::as_parts: the sign (true for positive),
/// mantissa and decimal exponent of a number.
pub assume_specification[ json::number::Number::as_parts ](n: &json::number::Number) -> (r: (
    bool,
    u64,
    i16,
))
    ensures
        r == parts_of(*n),
;

/// Relies on the variants of json::JsonValue: the object a value holds, if it
/// is one.
#[verifier::external_body]
fn into_object(v: json::JsonValue) -> (r: Option<json::object::Object>)
    ensures
        r == object_of(v),
{
    match v {
        json::JsonValue::Object(o) => Some(o),
        _ => None,
    }
}

/// The format version written out. Files of older versions are read; files of
/// newer ones are refused.
pub const VERSION: u32 = 1;

/// Why a document could not be read as a sound.
#[derive(Debug, PartialEq, Eq)]
pub enum JfxrFormatError {
    /// The text is not JSON.
    Json(json::Error),
    /// The document is not a JSON object.
    NotAnObject,
    /// A field was expected, but not found.
    MissingField(&'static str),
    /// A field had an invalid value or a wrong type.
    InvalidField(&'static str),
    /// The document was written by a newer version of the format.
    UnsupportedVersion,
}

impl From<json::Error> for JfxrFormatError {
    fn from(value: json::Error) -> (r: Self)
        ensures
            r == JfxrFormatError::Json(value),
    {
        JfxrFormatError::Json(value)
    }
}

impl vstd::std_specs::convert::FromSpecImpl<json::Error> for JfxrFormatError {
    open spec fn obeys_from_spec() -> bool {
        true
    }

    open spec fn from_spec(v: json::Error) -> Self {
        JfxrFormatError::Json(v)
    }
}

/// What a parse outcome makes of a document: its object, the parser's
/// error, or `NotAnObject` for JSON of another kind.
pub open spec fn document_of(parsed: json::Result<json::JsonValue>) -> Result<
    json::object::Object,
    JfxrFormatError,
> {
    match parsed {
        Err(e) => Err(JfxrFormatError::Json(e)),
        Ok(v) => match object_of(v) {
            Some(o) => Ok(o),
            None => Err(JfxrFormatError::NotAnObject),
        },
    }
}

/// The outcome of parsing a document: its object, the parser's error, or
/// `NotAnObject` for JSON of another kind.
pub fn parsed_object(parsed: json::Result<json::JsonValue>) -> (r: Result<
    json::object::Object,
    JfxrFormatError,
>)
    ensures
        r == document_of(parsed),
{
    match parsed {
        Err(e) => Err(JfxrFormatError::Json(e)),
        Ok(v) => match into_object(v) {
            Some(o) => Ok(o),
            None => Err(JfxrFormatError::NotAnObject),
        },
    }
}

/// Whether `text` holds no run of digits longer than `MAX_DIGIT_RUN`, so
/// that it may be handed to the parser.
pub fn has_short_digit_runs(text: &str) -> (r: bool)
    ensures
        r == digit_runs_short(text.spec_bytes()),
{
    let b = text.as_bytes();
    let mut run: usize = 0;
    let mut i: usize = 0;
    while i < b.len()
        invariant
            b@ == text.spec_bytes(),
            i <= b@.len(),
            run == digit_run(b@, i as nat),
            forall|j: nat| j <= i ==> #[trigger] digit_run(b@, j) <= MAX_DIGIT_RUN,
        decreases b@.len() - i,
    {
        if 48 <= b[i] && b[i] <= 57 {
            run = run + 1;
        } else {
            run = 0;
        }
        i = i + 1;
        assert(run == digit_run(b@, i as nat));
        if run > MAX_DIGIT_RUN {
            return false;
        }
    }
    true
}

/// Parses `text` as a JSON object.
pub fn parse_object(text: &str) -> (r: Result<json::object::Object, JfxrFormatError>)
    requires
        digit_runs_short(text.spec_bytes()),
    ensures
        r == document_of(parse_of(text@)),
{
    parsed_object(json::parse(text))
}

/// The outcome of reading field `name`: `found` is `None` when the field is
/// absent, `Some(None)` when its value has the wrong type or range.
pub fn field_value<T>(name: &'static str, found: Option<Option<T>>) -> (r: Result<
    T,
    JfxrFormatError,
>)
    ensures
        r == match found {
            None => Err(JfxrFormatError::MissingField(name)),
            Some(None) => Err(JfxrFormatError::InvalidField(name)),
            Some(Some(v)) => Ok(v),
        },
{
    match found {
        None => Err(JfxrFormatError::MissingField(name)),
        Some(None) => Err(JfxrFormatError::InvalidField(name)),
        Some(Some(v)) => Ok(v),
    }
}

/// What reading field `name` gives when `convert` stands for the accessor
/// applied to the value found.
pub open spec fn field_read<T>(
    o: json::object::Object,
    name: &'static str,
    convert: spec_fn(json::JsonValue) -> Option<T>,
) -> Result<T, JfxrFormatError> {
    match field_of(o, name@) {
        None => Err(JfxrFormatError::MissingField(name)),
        Some(v) => match convert(v) {
            None => Err(JfxrFormatError::InvalidField(name)),
            Some(x) => Ok(x),
        },
    }
}

/// Reads field `name` as an unsigned 32-bit integer.
pub fn read_u32(o: &json::object::Object, name: &'static str) -> (r: Result<u32, JfxrFormatError>)
    ensures
        r == field_read(*o, name, |v: json::JsonValue| u32_of(v)),
{
    let found = match o.get(name) {
        None => None,
        Some(v) => Some(v.as_u32()),
    };
    field_value(name, found)
}

/// The integer a number stands for, when it has no decimal exponent and
/// fits an `i32`.
pub open spec fn i32_of_parts(parts: (bool, u64, i16)) -> Option<i32> {
    let (positive, mantissa, exponent) = parts;
    let value: int = if positive {
        mantissa as int
    } else {
        -(mantissa as int)
    };
    if exponent == 0 && i32::MIN <= value <= i32::MAX {
        Some(value as i32)
    } else {
        None
    }
}

/// The integer a number given by sign (true for positive), mantissa and
/// decimal exponent stands for, when it fits an `i32`.
pub fn i32_from_parts(positive: bool, mantissa: u64, exponent: i16) -> (r: Option<i32>)
    ensures
        r == i32_of_parts((positive, mantissa, exponent)),
{
    if exponent != 0 {
        None
    } else if positive {
        if mantissa <= 0x7fff_ffff {
            Some(mantissa as i32)
        } else {
            None
        }
    } else if mantissa <= 0x8000_0000 {
        Some((0i64 - mantissa as i64) as i32)
    } else {
        None
    }
}

/// The integer a JSON value stands for, when it is a number with no
/// decimal exponent that fits an `i32`.
pub open spec fn i32_of(v: json::JsonValue) -> Option<i32> {
    match number_of(v) {
        None => None,
        Some(n) => i32_of_parts(parts_of(n)),
    }
}

/// Reads field `name` as a signed 32-bit integer.
pub fn read_i32(o: &json::object::Object, name: &'static str) -> (r: Result<i32, JfxrFormatError>)
    ensures
        r == field_read(*o, name, |v: json::JsonValue| i32_of(v)),
{
    let found = match o.get(name) {
        None => None,
        Some(v) => Some(
            match v.as_number() {
                None => None,
                Some(n) => {
                    let (positive, mantissa, exponent) = n.as_parts();
                    i32_from_parts(positive, mantissa, exponent)
                },
            },
        ),
    };
    field_value(name, found)
}

/// Reads field `name` as a boolean.
pub fn read_bool(o: &json::object::Object, name: &'static str) -> (r: Result<bool, JfxrFormatError>)
    ensures
        r == field_read(*o, name, |v: json::JsonValue| bool_of(v)),
{
    let found = match o.get(name) {
        None => None,
        Some(v) => Some(v.as_bool()),
    };
    field_value(name, found)
}

/// Reads field `name` as a string.
pub fn read_str<'a>(o: &'a json::object::Object, name: &'static str) -> (r: Result<
    &'a str,
    JfxrFormatError,
>)
    ensures
        match field_read(*o, name, |v: json::JsonValue| str_of(v)) {
            Ok(t) => r matches Ok(x) && x@ == t,
            Err(e) => r == Err::<&str, JfxrFormatError>(e),
        },
{
    let found = match o.get(name) {
        None => None,
        Some(v) => Some(v.as_str()),
    };
    field_value(name, found)
}

/// Refuses documents of a newer format version than this one.
pub fn check_version(version: u32) -> (r: Result<(), JfxrFormatError>)
    ensures
        version <= VERSION ==> r is Ok,
        version > VERSION ==> r == Err::<(), JfxrFormatError>(JfxrFormatError::UnsupportedVersion),
{
    if version > VERSION {
        Err(JfxrFormatError::UnsupportedVersion)
    } else {
        Ok(())
    }
}

/// The tag that stands for each waveform in a document.
pub open spec fn waveform_tag(w: Waveform) -> Seq<char> {
    match w {
        Waveform::Sine => seq!['s', 'i', 'n', 'e'],
        Waveform::Triangle => seq!['t', 'r', 'i', 'a', 'n', 'g', 'l', 'e'],
        Waveform::Sawtooth => seq!['s', 'a', 'w', 't', 'o', 'o', 't', 'h'],
        Waveform::Square => seq!['s', 'q', 'u', 'a', 'r', 'e'],
        Waveform::Tangent => seq!['t', 'a', 'n', 'g', 'e', 'n', 't'],
        Waveform::Whistle => seq!['w', 'h', 'i', 's', 't', 'l', 'e'],
        Waveform::Breaker => seq!['b', 'r', 'e', 'a', 'k', 'e', 'r'],
        Waveform::Whitenoise => seq!['w', 'h', 'i', 't', 'e', 'n', 'o', 'i', 's', 'e'],
        Waveform::Pinknoise => seq!['p', 'i', 'n', 'k', 'n', 'o', 'i', 's', 'e'],
        Waveform::Brownnoise => seq!['b', 'r', 'o', 'w', 'n', 'n', 'o', 'i', 's', 'e'],
    }
}

/// The waveform whose tag is `t`, if any.
pub open spec fn waveform_of_tag(t: Seq<char>) -> Option<Waveform> {
    if exists|w: Waveform| waveform_tag(w) == t {
        Some(choose|w: Waveform| waveform_tag(w) == t)
    } else {
        None
    }
}

/// The tag of each waveform is its own: no two waveforms share one, so a
/// waveform written to a document reads back as itself.
pub proof fn lemma_waveform_tags_distinct(a: Waveform, b: Waveform)
    ensures
        waveform_tag(a) == waveform_tag(b) <==> a == b,
{
    if waveform_tag(a) == waveform_tag(b) {
        let (ta, tb) = (waveform_tag(a), waveform_tag(b));
        assert(ta.len() == tb.len() && ta[0] == tb[0] && ta[1] == tb[1] && ta[2] == tb[2]);
    }
}

fn bytes_equal(a: &[u8], b: &[u8]) -> (r: bool)
    ensures
        r == (a@ == b@),
{
    if a.len() != b.len() {
        return false;
    }
    let mut i: usize = 0;
    while i < a.len()
        invariant
            a@.len() == b@.len(),
            i <= a@.len(),
            forall|j: int| 0 <= j < i ==> a@[j] == b@[j],
        decreases a@.len() - i,
    {
        if a[i] != b[i] {
            return false;
        }
        i = i + 1;
    }
    proof {
        assert(a@ =~= b@);
    }
    true
}

fn same_text(a: &str, b: &str) -> (r: bool)
    ensures
        r == (a@ == b@),
{
    let r = bytes_equal(a.as_bytes(), b.as_bytes());
    proof {
        encode_utf8_decode_utf8(a@);
        encode_utf8_decode_utf8(b@);
    }
    r
}

/// The tag written for a waveform.
pub fn waveform_name(w: Waveform) -> (r: &'static str)
    ensures
        r@ == waveform_tag(w),
{
    match w {
        Waveform::Sine => {
            proof {
                reveal_strlit("sine");
            }
            "sine"
        },
        Waveform::Triangle => {
            proof {
                reveal_strlit("triangle");
            }
            "triangle"
        },
        Waveform::Sawtooth => {
            proof {
                reveal_strlit("sawtooth");
            }
            "sawtooth"
        },
        Waveform::Square => {
            proof {
                reveal_strlit("square");
            }
            "square"
        },
        Waveform::Tangent => {
            proof {
                reveal_strlit("tangent");
            }
            "tangent"
        },
        Waveform::Whistle => {
            proof {
                reveal_strlit("whistle");
            }
            "whistle"
        },
        Waveform::Breaker => {
            proof {
                reveal_strlit("breaker");
            }
            "breaker"
        },
        Waveform::Whitenoise => {
            proof {
                reveal_strlit("whitenoise");
            }
            "whitenoise"
        },
        Waveform::Pinknoise => {
            proof {
                reveal_strlit("pinknoise");
            }
            "pinknoise"
        },
        Waveform::Brownnoise => {
            proof {
                reveal_strlit("brownnoise");
            }
            "brownnoise"
        },
    }
}

/// The waveform whose tag is `name`, if there is one.
pub fn waveform_from_name(name: &str) -> (r: Option<Waveform>)
    ensures
        r == waveform_of_tag(name@),
{
    let mut k: usize = 0;
    while k < 10
        invariant
            k <= 10,
            forall|j: int| 0 <= j < k ==> name@ != waveform_tag(#[trigger] WAVEFORMS@[j]),
        decreases 10 - k,
    {
        let w = WAVEFORMS[k];
        if same_text(name, waveform_name(w)) {
            proof {
                let c = choose|x: Waveform| waveform_tag(x) == name@;
                lemma_waveform_tags_distinct(c, w);
            }
            return Some(w);
        }
        k = k + 1;
    }
    proof {
        assert forall|w: Waveform| name@ != waveform_tag(w) by {
            let j: int = match w {
                Waveform::Sine => 0,
                Waveform::Triangle => 1,
                Waveform::Sawtooth => 2,
                Waveform::Square => 3,
                Waveform::Tangent => 4,
                Waveform::Whistle => 5,
                Waveform::Breaker => 6,
                Waveform::Whitenoise => 7,
                Waveform::Pinknoise => 8,
                Waveform::Brownnoise => 9,
            };
            assert(WAVEFORMS@[j] == w);
        }
    }
    None
}

/// Reads field `name` as a waveform tag.
pub fn read_waveform(o: &json::object::Object, name: &'static str) -> (r: Result<
    Waveform,
    JfxrFormatError,
>)
    ensures
        r == match field_read(*o, name, |v: json::JsonValue| str_of(v)) {
            Err(e) => Err(e),
            Ok(t) => match waveform_of_tag(t) {
                Some(w) => Ok(w),
                None => Err(JfxrFormatError::InvalidField(name)),
            },
        },
{
    let tag = read_str(o, name)?;
    match waveform_from_name(tag) {
        Some(w) => Ok(w),
        None => Err(JfxrFormatError::InvalidField(name)),
    }
}

} // verus!
