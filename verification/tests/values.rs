use rrt_daemon::bytes::{find_subslice, parse_hex, push_be, read_be, split_bytes, to_hex};
use rrt_daemon::calendar::{civil_from_days, format_timestamp, zero_padded};
use rrt_daemon::codec::{
    dict_entries, kw_bool, kw_i64, kw_str, map_value, parse_kwargs, yr_deserialize,
    yr_serialize_value, Arg,
};
use rrt_daemon::json::{json_args_to_kwargs, json_to_rmpv, read_json, write_json, Json};
use rrt_daemon::json_text::{err_json, write_object};
use rrt_daemon::pyval::{encode_exec_result, ExecResult};
use rrt_daemon::text::{
    parse_signed, parse_unsigned, same_ignoring_case, split, split_once, to_decimal,
    to_signed_decimal, trim,
};
use rrt_daemon::value::{display, read_value, write_value, Datum};

fn sample() -> Datum {
    Datum::Dict(vec![
        (Datum::text("n"), Datum::Unsigned(300)),
        (Datum::text("s"), Datum::Signed(-300)),
        (Datum::text("f"), Datum::Float64(0.25f64.to_bits())),
        (Datum::text("g"), Datum::Float32(0.5f32.to_bits())),
        (
            Datum::text("a"),
            Datum::Array(vec![Datum::Nil, Datum::Boolean(true), Datum::Binary(vec![1, 2])]),
        ),
        (Datum::text("e"), Datum::Ext(5, vec![9])),
    ])
}

#[test]
fn msgpack_reads_back() {
    let bytes = write_value(&sample());
    assert_eq!(read_value(&bytes), Some(sample()));
}

#[test]
fn msgpack_of_a_short_text() {
    assert_eq!(write_value(&Datum::text("hi")), [0xa2, b'h', b'i']);
    assert_eq!(write_value(&Datum::Float64(1.0f64.to_bits()))[0], 0xcb);
    assert_eq!(read_value(&[0xa2, b'h']), None);
    assert_eq!(read_value(&[]), None);
}

#[test]
fn trees_agree_with_the_library_that_reads_them() {
    let bytes = write_value(&sample());
    let tree = rmpv::decode::read_value(&mut &bytes[..]).unwrap();
    assert_eq!(tree["n"].as_u64(), Some(300));
    assert_eq!(tree["s"].as_i64(), Some(-300));
    assert_eq!(tree["f"].as_f64(), Some(0.25));
}

#[test]
fn values_are_shown_as_text() {
    assert_eq!(display(&Datum::integer(5)), "5");
    assert_eq!(display(&Datum::text("x")), "\"x\"");
    assert_eq!(display(&Datum::Nil), "nil");
}

#[test]
fn values_know_what_they_are() {
    assert_eq!(Datum::Unsigned(u64::MAX).as_i64(), None);
    assert_eq!(Datum::Unsigned(7).as_i64(), Some(7));
    assert_eq!(Datum::Signed(-7).as_i64(), Some(-7));
    assert_eq!(Datum::Boolean(true).as_bool(), Some(true));
    assert_eq!(Datum::text("x").as_str(), Some("x"));
    assert_eq!(Datum::RawText(vec![0xff]).as_str(), None);
    assert_eq!(sample().duplicate(), sample());
}

// ───────────────────────── arguments ─────────────────────────

#[test]
fn serialised_values_read_back() {
    let bytes = yr_serialize_value(&sample());
    assert_eq!(yr_deserialize(&bytes), Some(sample()));
}

#[test]
fn serialised_values_need_their_head() {
    assert_eq!(yr_deserialize(&[]), None);
    assert_eq!(yr_deserialize(&[0; 4]), None);
}

#[test]
fn sizes_are_integers_of_any_width() {
    let inner = write_value(&Datum::text("hi"));
    let data = write_value(&Datum::Binary(inner.clone()));
    let n = data.len() as u8;
    let read = |size: &[u8]| {
        let mut headed = vec![0xc1u8; 8];
        headed.extend(size);
        headed.resize(16, 0);
        headed.extend(&data);
        yr_deserialize(&headed)
    };
    let sized = Some(Datum::Binary(inner.clone()));
    assert_eq!(read(&[n]), sized);
    assert_eq!(read(&[0xcc, n]), sized);
    assert_eq!(read(&[0xcd, 0, n]), sized);
    assert_eq!(read(&[0xce, 0, 0, 0, n]), sized);
    assert_eq!(read(&[0xd0, n]), sized);
    assert_eq!(read(&[0xd1, 0, n]), sized);
    assert_eq!(read(&[0xd2, 0, 0, 0, n]), sized);

    let unsized_text = Some(Datum::text("hi"));
    assert_eq!(read(&[0xcf, 0, 0, 0, 0, 0, 0, n]), unsized_text);
    assert_eq!(read(&[0xd3, 0, 0, 0, 0, 0, 0, n]), unsized_text);
    assert_eq!(read(&[0xcd, n, 0]), unsized_text);
    assert_eq!(read(&[0xd0, 0xff]), unsized_text);
    assert_eq!(read(&[0xe0]), unsized_text);
    assert_eq!(read(&[0xc0]), unsized_text);
}

#[test]
fn serialised_values_have_several_forms() {
    let data = write_value(&Datum::text("hi"));
    let mut wrapped = vec![7u8; 24];
    wrapped.extend((data.len() as u64).to_le_bytes());
    wrapped.extend(&data);
    wrapped.extend(b"more");
    assert_eq!(yr_deserialize(&wrapped), Some(Datum::text("hi")));

    let mut headed = vec![0u8; 8];
    headed.push(data.len() as u8);
    headed.extend([0u8; 7]);
    headed.extend(&data);
    headed.extend([0xc1u8; 4]);
    assert_eq!(yr_deserialize(&headed), Some(Datum::text("hi")));

    let long = write_value(&Datum::text(&"x".repeat(200)));
    let mut headed = vec![0u8; 8];
    headed.extend([0xcc, long.len() as u8, 0, 0, 0, 0, 0, 0]);
    headed.extend(&long);
    assert_eq!(yr_deserialize(&headed), Some(Datum::text(&"x".repeat(200))));

    let inner = yr_serialize_value(&Datum::text("hi"));
    let nested = yr_serialize_value(&Datum::Binary(inner));
    assert_eq!(yr_deserialize(&nested), Some(Datum::text("hi")));
}

#[test]
fn keywords_come_in_pairs_of_arguments() {
    let arg = |v: Datum| Arg {
        value: yr_serialize_value(&v),
    };
    let kw = parse_kwargs(&vec![
        arg(Datum::text("metadata")),
        arg(Datum::text("cmd")),
        arg(Datum::text("ls")),
        arg(Datum::text("n")),
        arg(Datum::integer(3)),
        arg(Datum::text("b")),
        arg(Datum::Boolean(true)),
    ]);
    assert_eq!(kw_str(&kw, "cmd"), Some("ls".to_string()));
    assert_eq!(kw_i64(&kw, "n"), Some(3));
    assert_eq!(kw_bool(&kw, "b"), Some(true));
    assert_eq!(kw_str(&kw, "n"), None);
    let whole = parse_kwargs(&vec![arg(map_value(vec![("cmd", Datum::text("ls"))]))]);
    assert_eq!(kw_str(&whole, "cmd"), Some("ls".to_string()));
    let bare = parse_kwargs(&vec![arg(Datum::text("cmd")), arg(Datum::text("ls"))]);
    assert_eq!(kw_str(&bare, "cmd"), Some("ls".to_string()));
    assert!(parse_kwargs(&Vec::new()).is_empty());
}

#[test]
fn dictionaries_become_keywords() {
    let kw = dict_entries(vec![
        (Datum::text("a"), Datum::integer(1)),
        (Datum::integer(2), Datum::integer(2)),
        (Datum::text("a"), Datum::integer(3)),
    ]);
    assert_eq!(kw_i64(&kw, "a"), Some(3));
    assert!(!kw.is_empty());
    assert_eq!(
        map_value(vec![("k", Datum::Nil)]),
        Datum::Dict(vec![(Datum::text("k"), Datum::Nil)])
    );
}

// ───────────────────────── JSON ─────────────────────────

#[test]
fn json_is_read_into_a_tree() {
    let v = read_json(br#"{"a":[1,-2,0.5,"x",null,true],"b":18446744073709551615}"#).unwrap();
    assert_eq!(v.get("b"), Some(&Json::Unsigned(u64::MAX)));
    let Some(Json::Array(items)) = v.get("a") else {
        panic!("{v:?}");
    };
    assert_eq!(items[2], Json::Float(0.5f64.to_bits()));
    assert_eq!(items[3], Json::Text("x".to_string()));
    assert_eq!(v.get("none"), None);
    assert_eq!(v.get_text("a"), None);
    assert!(read_json(b"{").is_err());
}

#[test]
fn json_becomes_values() {
    let v = read_json(br#"{"a":{"k":[1,0.5]}}"#).unwrap();
    let kw = json_args_to_kwargs(Some(&v));
    assert_eq!(
        kw.get("a"),
        Some(&Datum::Dict(vec![(
            Datum::text("k"),
            Datum::Array(vec![
                json_to_rmpv(&read_json(b"1").unwrap()),
                Datum::Float64(0.5f64.to_bits())
            ])
        )]))
    );
    assert!(json_args_to_kwargs(None).is_empty());
}

#[test]
fn values_become_json_text() {
    assert_eq!(write_json(&Datum::text("a\"b\n")), "\"a\\\"b\\n\"");
    assert_eq!(write_json(&Datum::Float64(0.25f64.to_bits())), "0.25");
    assert_eq!(write_json(&Datum::Float32(0.5f32.to_bits())), "0.5");
    assert_eq!(write_json(&Datum::Float64(f64::NAN.to_bits())), "null");
    let twice = Datum::Dict(vec![
        (Datum::text("z"), Datum::integer(1)),
        (Datum::text("a"), Datum::integer(2)),
        (Datum::text("z"), Datum::integer(3)),
    ]);
    assert_eq!(write_json(&twice), "{\"a\":2,\"z\":3}");
    let names = Datum::Dict(vec![
        (Datum::text("é"), Datum::integer(1)),
        (Datum::text("ab"), Datum::integer(2)),
        (Datum::text("Z"), Datum::integer(3)),
        (Datum::text("a"), Datum::integer(4)),
        (Datum::text(""), Datum::integer(5)),
    ]);
    assert_eq!(write_json(&names), "{\"\":5,\"Z\":3,\"a\":4,\"ab\":2,\"é\":1}");
}

#[test]
fn json_objects_are_written_in_order() {
    assert_eq!(
        write_object(&vec![("b", "1".to_string()), ("a", "null".to_string())]),
        "{\"b\":1,\"a\":null}"
    );
    assert_eq!(err_json("\u{1}"), "{\"error\":\"\\u0001\"}");
}

// ───────────────────────── pickles ─────────────────────────

#[test]
fn results_are_pickled_as_dictionaries() {
    let bytes = encode_exec_result(-3, "hello".to_string(), "".to_string()).unwrap();
    let value: std::collections::BTreeMap<String, serde_pickle::Value> =
        serde_pickle::from_slice(&bytes, serde_pickle::DeOptions::new()).unwrap();
    assert_eq!(value["returncode"], serde_pickle::Value::I64(-3));
    assert_eq!(value["stdout"], serde_pickle::Value::String("hello".to_string()));
    assert_eq!(value["stderr"], serde_pickle::Value::String(String::new()));
    assert_eq!(value.len(), 3);
}

#[test]
fn results_are_pickled_in_the_order_of_their_fields() {
    let bytes = encode_exec_result(1, "o".to_string(), "e".to_string()).unwrap();
    assert_eq!(
        bytes,
        b"\x80\x03}(X\x0a\0\0\0returncodeJ\x01\0\0\0X\x06\0\0\0stdoutX\x01\0\0\0oX\x06\0\0\0stderrX\x01\0\0\0eu."
    );
    let result = ExecResult {
        returncode: 1,
        stdout: "o".to_string(),
        stderr: "e".to_string(),
    };
    let Datum::Dict(items) = result.value() else {
        panic!("no dictionary");
    };
    assert_eq!(items[0].1.as_i64(), Some(1));
}

// ───────────────────────── text ─────────────────────────

#[test]
fn numbers_read_back() {
    assert_eq!(to_decimal(u64::MAX), "18446744073709551615");
    assert_eq!(parse_unsigned("18446744073709551615", u64::MAX), Some(u64::MAX));
    assert_eq!(parse_unsigned("18446744073709551616", u64::MAX), None);
    assert_eq!(parse_unsigned("+5", 10), Some(5));
    assert_eq!(parse_unsigned("-5", 10), None);
    assert_eq!(parse_unsigned("", 10), None);
    assert_eq!(parse_unsigned("11", 10), None);
    assert_eq!(to_signed_decimal(i64::MIN), "-9223372036854775808");
    assert_eq!(parse_signed("-9223372036854775808"), Some(i64::MIN));
    assert_eq!(parse_signed("9223372036854775808"), None);
}

#[test]
fn texts_are_split_and_trimmed() {
    assert_eq!(split("a,,b", ','), ["a", "", "b"]);
    assert_eq!(
        split_once("k=v=w", '='),
        Some(("k".to_string(), "v=w".to_string()))
    );
    assert_eq!(split_once("k", '='), None);
    assert_eq!(trim("\u{3000} a b\t\n"), "a b");
    assert!(same_ignoring_case("WebSocket", "websocket"));
    assert!(!same_ignoring_case("É", "é"));
}

#[test]
fn bytes_are_written_and_read() {
    let mut out = Vec::new();
    push_be(&mut out, 0x0102, 4);
    assert_eq!(out, [0, 0, 1, 2]);
    assert_eq!(read_be(&out, 0, 4), 0x0102);
    assert_eq!(to_hex(&[0xab, 0x01]), "ab01");
    assert_eq!(parse_hex(&"AB01".chars().collect()), Some(vec![0xab, 0x01]));
    assert_eq!(parse_hex(&"xy".chars().collect()), None);
    assert_eq!(find_subslice(b"abcabc", b"ca"), Some(2));
    assert_eq!(find_subslice(b"abc", b"x"), None);
    assert_eq!(split_bytes(b"a\0b", 0), [b"a".to_vec(), b"b".to_vec()]);
}

#[test]
fn days_become_dates() {
    assert_eq!(civil_from_days(0), (1970, 1, 1));
    assert_eq!(civil_from_days(-1), (1969, 12, 31));
    assert_eq!(civil_from_days(19_782), (2024, 2, 29));
    assert_eq!(civil_from_days(11_016), (2000, 2, 29));
}

#[test]
fn moments_become_text() {
    assert_eq!(format_timestamp(0, 7), "1970-01-01 00:00:00.007");
    assert_eq!(format_timestamp(1_709_210_096, 123), "2024-02-29 12:34:56.123");
    assert_eq!(zero_padded(5, 3), "005");
    assert_eq!(zero_padded(1234, 3), "1234");
}
