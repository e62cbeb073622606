use pumpkin::codec::Codec;
use pumpkin::codecs::either::{new_either_codec, EitherCodec};
use pumpkin::data_result::{DataResult, DataSpec};
use pumpkin::either::Either;

/// A small dynamic value, standing in for JSON.
#[derive(Debug, Clone, PartialEq)]
enum Json {
    Empty,
    Int(i64),
    Double(f64),
    Str(String),
    Bool(bool),
    Object(Vec<(String, Json)>),
}

struct IntCodec;
struct StringCodec;
struct DoubleCodec;

fn error<R>(message: &str) -> DataResult<R> {
    DataResult::new_error(message.to_string())
}

impl Codec<Json> for IntCodec {
    type Value = i32;
    // Only the verifier reads these; tests never call them.
    fn spec_encode(&self, _input: i32, _prefix: Json) -> DataSpec<Json> {
        unreachable!()
    }
    fn spec_decode(&self, _input: Json) -> DataSpec<(i32, Json)> {
        unreachable!()
    }
    fn encode(&self, input: &i32, _prefix: Json) -> DataResult<Json> {
        DataResult::success(Json::Int(*input as i64))
    }
    fn decode(&self, input: &Json) -> DataResult<(i32, Json)> {
        match input {
            Json::Int(n) => DataResult::success((*n as i32, Json::Empty)),
            _ => error("Not a number"),
        }
    }
}

impl Codec<Json> for StringCodec {
    type Value = String;
    // Only the verifier reads these; tests never call them.
    fn spec_encode(&self, _input: String, _prefix: Json) -> DataSpec<Json> {
        unreachable!()
    }
    fn spec_decode(&self, _input: Json) -> DataSpec<(String, Json)> {
        unreachable!()
    }
    fn encode(&self, input: &String, _prefix: Json) -> DataResult<Json> {
        DataResult::success(Json::Str(input.clone()))
    }
    fn decode(&self, input: &Json) -> DataResult<(String, Json)> {
        match input {
            Json::Str(s) => DataResult::success((s.clone(), Json::Empty)),
            _ => error("Not a string"),
        }
    }
}

impl Codec<Json> for DoubleCodec {
    type Value = f64;
    // Only the verifier reads these; tests never call them.
    fn spec_encode(&self, _input: f64, _prefix: Json) -> DataSpec<Json> {
        unreachable!()
    }
    fn spec_decode(&self, _input: Json) -> DataSpec<(f64, Json)> {
        unreachable!()
    }
    fn encode(&self, input: &f64, _prefix: Json) -> DataResult<Json> {
        DataResult::success(Json::Double(*input))
    }
    fn decode(&self, input: &Json) -> DataResult<(f64, Json)> {
        match input {
            Json::Int(n) => DataResult::success((*n as f64, Json::Empty)),
            Json::Double(d) => DataResult::success((*d, Json::Empty)),
            _ => error("Not a number"),
        }
    }
}

/// A type to store a complex number (a number with both a real and imaginary part).
#[derive(Debug, PartialEq, Clone)]
struct ComplexNumber(f64, f64);

/// Reads the fields "real" and "imaginary" of a map.
struct ComplexNumberCodec;

impl Codec<Json> for ComplexNumberCodec {
    type Value = ComplexNumber;
    // Only the verifier reads these; tests never call them.
    fn spec_encode(&self, _input: ComplexNumber, _prefix: Json) -> DataSpec<Json> {
        unreachable!()
    }
    fn spec_decode(&self, _input: Json) -> DataSpec<(ComplexNumber, Json)> {
        unreachable!()
    }
    fn encode(&self, input: &ComplexNumber, _prefix: Json) -> DataResult<Json> {
        DataResult::success(Json::Object(vec![
            ("real".to_string(), Json::Double(input.0)),
            ("imaginary".to_string(), Json::Double(input.1)),
        ]))
    }
    fn decode(&self, input: &Json) -> DataResult<(ComplexNumber, Json)> {
        let Json::Object(entries) = input else {
            return error("Not a map");
        };
        let field = |name: &str| {
            entries
                .iter()
                .find(|(k, _)| k == name)
                .and_then(|(_, v)| match DoubleCodec.decode(v) {
                    DataResult::Success { result, .. } => Some(result.0),
                    DataResult::Error { .. } => None,
                })
        };
        match (field("real"), field("imaginary")) {
            (Some(r), Some(i)) => DataResult::success((ComplexNumber(r, i), Json::Empty)),
            _ => error("No key imaginary in map"),
        }
    }
}

/// A map from strings to doubles.
struct DoubleMapCodec;

impl Codec<Json> for DoubleMapCodec {
    type Value = Vec<(String, f64)>;
    // Only the verifier reads these; tests never call them.
    fn spec_encode(&self, _input: Vec<(String, f64)>, _prefix: Json) -> DataSpec<Json> {
        unreachable!()
    }
    fn spec_decode(&self, _input: Json) -> DataSpec<(Vec<(String, f64)>, Json)> {
        unreachable!()
    }
    fn encode(&self, input: &Vec<(String, f64)>, _prefix: Json) -> DataResult<Json> {
        DataResult::success(Json::Object(
            input.iter().map(|(k, v)| (k.clone(), Json::Double(*v))).collect(),
        ))
    }
    fn decode(&self, input: &Json) -> DataResult<(Vec<(String, f64)>, Json)> {
        let Json::Object(entries) = input else {
            return error("Not a map");
        };
        let mut out = Vec::new();
        for (k, v) in entries {
            match DoubleCodec.decode(v) {
                DataResult::Success { result, .. } => out.push((k.clone(), result.0)),
                DataResult::Error { .. } => return error("Not a number"),
            }
        }
        DataResult::success((out, Json::Empty))
    }
}

static INT_CODEC: IntCodec = IntCodec;
static STRING_CODEC: StringCodec = StringCodec;
static COMPLEX_NUMBER_CODEC: ComplexNumberCodec = ComplexNumberCodec;
static DOUBLE_MAP_CODEC: DoubleMapCodec = DoubleMapCodec;

fn expect<R>(r: DataResult<R>, message: &str) -> R {
    match r {
        DataResult::Success { result, .. } => result,
        DataResult::Error { message: m, .. } => panic!("{message}: {m}"),
    }
}

fn parse<L: Codec<Json>, R: Codec<Json>>(
    codec: &EitherCodec<L, R>,
    input: Json,
) -> DataResult<Either<L::Value, R::Value>> {
    match codec.decode(&input) {
        DataResult::Success { result, lifecycle } => DataResult::Success { result: result.0, lifecycle },
        DataResult::Error { partial_result, message, lifecycle } => DataResult::Error {
            partial_result: partial_result.map(|p| p.0),
            message,
            lifecycle,
        },
    }
}

fn map(entries: &[(&str, Json)]) -> Json {
    Json::Object(entries.iter().map(|(k, v)| (k.to_string(), v.clone())).collect())
}

#[test]
fn simple() {
    let either_int_string_codec = new_either_codec(&INT_CODEC, &STRING_CODEC);

    // Encoding

    assert_eq!(
        expect(either_int_string_codec.encode(&Either::Left(5), Json::Empty), "Encoding should succeed"),
        Json::Int(5)
    );

    assert_eq!(
        expect(
            either_int_string_codec.encode(&Either::Right("I am some text.".to_string()), Json::Empty),
            "Encoding should succeed"
        ),
        Json::Str("I am some text.".to_string())
    );

    // Decoding

    assert_eq!(
        expect(parse(&either_int_string_codec, Json::Int(-238)), "Decoding should succeed"),
        Either::Left(-238)
    );
    assert_eq!(
        expect(parse(&either_int_string_codec, Json::Str("hello".to_string())), "Decoding should succeed"),
        Either::Right("hello".to_string())
    );
    assert!(parse(&either_int_string_codec, Json::Bool(true))
        .get_message()
        .expect("Decoding should fail")
        .starts_with("Failed to parse either."));
}

// A situation where two codecs could possibly decode valid but different values.
// This test only checks for decoding.
#[test]
fn intersecting_codecs() {
    let complex_number_first = new_either_codec(&COMPLEX_NUMBER_CODEC, &DOUBLE_MAP_CODEC);
    let double_map_first = new_either_codec(&DOUBLE_MAP_CODEC, &COMPLEX_NUMBER_CODEC);

    // We expect a complex number first, as that is the first to be checked.
    match expect(
        parse(&complex_number_first, map(&[("real", Json::Double(10.1)), ("imaginary", Json::Double(-4.5))])),
        "Decoding should succeed",
    ) {
        Either::Left(c) => assert_eq!(c, ComplexNumber(10.1, -4.5)),
        Either::Right(_) => panic!("Expected complex number"),
    }

    // This should be a map, as the complex number codec fails due to a missing field.
    match expect(
        parse(
            &complex_number_first,
            map(&[("real", Json::Double(10.1)), ("second", Json::Double(-4.5)), ("third", Json::Int(1))]),
        ),
        "Decoding should succeed",
    ) {
        Either::Right(m) => assert_eq!(m.len(), 3),
        Either::Left(_) => panic!("Expected double map"),
    }

    match expect(
        parse(&double_map_first, map(&[("real", Json::Double(-124.6)), ("imaginary", Json::Int(134))])),
        "Decoding should succeed",
    ) {
        Either::Left(m) => assert_eq!(m.len(), 2),
        Either::Right(_) => panic!("Expected double map"),
    }

    match expect(
        parse(
            &double_map_first,
            map(&[("a", Json::Int(1)), ("b", Json::Int(2)), ("c", Json::Int(3)), ("d", Json::Int(4))]),
        ),
        "Decoding should succeed",
    ) {
        Either::Left(m) => assert_eq!(m.len(), 4),
        Either::Right(_) => panic!("Expected double map"),
    }
}

#[test]
fn either_failure_message_quotes_both_errors() {
    let codec = new_either_codec(&INT_CODEC, &STRING_CODEC);
    let r = codec.decode(&Json::Bool(true));
    assert_eq!(
        r.get_message().unwrap(),
        "Failed to parse either. First: Not a number; Second: Not a string"
    );
    assert!(!r.has_result_or_partial());
}

/// A codec that always fails but keeps a partial result.
struct PartialIntCodec;

impl Codec<Json> for PartialIntCodec {
    type Value = i32;
    // Only the verifier reads these; tests never call them.
    fn spec_encode(&self, _input: i32, _prefix: Json) -> DataSpec<Json> {
        unreachable!()
    }
    fn spec_decode(&self, _input: Json) -> DataSpec<(i32, Json)> {
        unreachable!()
    }
    fn encode(&self, _input: &i32, _prefix: Json) -> DataResult<Json> {
        error("never")
    }
    fn decode(&self, _input: &Json) -> DataResult<(i32, Json)> {
        DataResult::new_partial_error("partial".to_string(), (7, Json::Empty))
    }
}

static PARTIAL_INT_CODEC: PartialIntCodec = PartialIntCodec;

#[test]
fn either_prefers_partial_left_result_over_failed_right() {
    let codec = new_either_codec(&PARTIAL_INT_CODEC, &STRING_CODEC);
    let r = codec.decode(&Json::Int(3));
    assert!(!r.is_success());
    assert!(r.has_result_or_partial());
    assert_eq!(r.get_message().unwrap(), "partial");
    match r {
        DataResult::Error { partial_result: Some((Either::Left(7), Json::Empty)), .. } => {}
        _ => panic!("expected the left partial result"),
    }
    // A right success wins over a left partial result.
    let r = codec.decode(&Json::Str("x".to_string()));
    assert!(r.is_success());
}
