use tinybrowser::script::{throw_range_error, throw_type_error};
use tinybrowser::text_codec::{
    encoding_for_label, extract_bytes, text_decode, url_encode_query, BufferSource, DecodeStep,
    JsTextDecoder, JsTextEncoder,
};

fn decoder(label: &str, canonical: &str) -> JsTextDecoder {
    JsTextDecoder::new(Some(label.to_string()), Some(canonical.to_string()), None, None).unwrap()
}

fn bytes(b: &[u8]) -> BufferSource {
    BufferSource::Bytes(Some(b.to_vec()))
}

fn text(step: Option<DecodeStep>) -> String {
    match step {
        Some(DecodeStep::Text(s)) => s,
        _ => panic!("a text was due"),
    }
}

#[test]
fn test_text_encoding_wpt_matrix() {
    let utf8 = JsTextDecoder::new(None, Some("UTF-8".to_string()), None, None).unwrap();
    assert_eq!(text(utf8.try_decode(&bytes(&[65, 66, 67]))), "ABC");
    let view = BufferSource::View {
        array_buffer: Some(vec![65, 66, 67]),
        typed_array: None,
        offset: 1,
        len: 1,
    };
    assert_eq!(text(utf8.try_decode(&view)), "B");
    let data_view = BufferSource::View {
        array_buffer: Some(vec![65, 66, 67]),
        typed_array: None,
        offset: 0,
        len: 3,
    };
    assert_eq!(text(utf8.try_decode(&data_view)), "ABC");
    assert_eq!(text(utf8.try_decode(&BufferSource::Missing)), "");
    assert_eq!(text(utf8.try_decode(&bytes(&[0xEF, 0xBB, 0xBF, 65]))), "A");
    let keeping = JsTextDecoder::new(
        Some("utf-8".to_string()),
        Some("UTF-8".to_string()),
        None,
        Some(true),
    )
    .unwrap();
    assert_eq!(text(keeping.try_decode(&bytes(&[0xEF, 0xBB, 0xBF, 65]))), "\u{FEFF}A");
    let fatal = JsTextDecoder::new(
        Some("utf-8".to_string()),
        Some("UTF-8".to_string()),
        Some(true),
        None,
    )
    .unwrap();
    match fatal.try_decode(&bytes(&[0xFF])) {
        Some(DecodeStep::Fatal { encoding, ignore_bom, bytes }) => {
            assert_eq!(encoding, "utf-8");
            assert!(!ignore_bom);
            assert_eq!(bytes, vec![0xFF]);
        }
        _ => panic!("the bytes are to be decoded strictly"),
    }
    match JsTextDecoder::finish_fatal(None) {
        DecodeStep::TypeError(e) => assert_eq!(
            e,
            "Failed to execute 'decode' on 'TextDecoder': The encoded data was not valid."
        ),
        _ => panic!("malformed bytes throw"),
    }
    assert_eq!(text(utf8.try_decode(&bytes(&[0xFF]))), "\u{FFFD}");
    assert_eq!(
        JsTextDecoder::new(Some("bad-label".to_string()), None, None, None).err().unwrap(),
        "Failed to construct 'TextDecoder': The encoding label provided ('bad-label') is invalid."
    );
    assert_eq!(text(decoder("gbk", "GBK").try_decode(&bytes(&[0xC4, 0xE3, 0xBA, 0xC3]))), "你好");
    assert_eq!(text(decoder("gb2312", "GBK").try_decode(&bytes(&[0xC4, 0xE3]))), "你");
    assert_eq!(text(decoder("big5", "Big5").try_decode(&bytes(&[0xA4, 0x40]))), "一");
    assert_eq!(text(decoder("shift_jis", "Shift_JIS").try_decode(&bytes(&[0x82, 0xA0]))), "あ");
    assert_eq!(text(decoder("euc-jp", "EUC-JP").try_decode(&bytes(&[0xA4, 0xA2]))), "あ");
    assert_eq!(text(decoder("euc-kr", "EUC-KR").try_decode(&bytes(&[0xB0, 0xA1]))), "가");
    let encoder = JsTextEncoder::new();
    assert_eq!(encoder.encode(Some("ABC".to_string())), vec![65, 66, 67]);
    assert_eq!(encoder.encoding(), "utf-8");
    let full = encoder.encode_into(Some("hello".to_string()), 10);
    assert!(full.read == 5 && full.written == 5);
    let cut = encoder.encode_into(Some("hello".to_string()), 2);
    assert!(cut.read == 2 && cut.written == 2);
}

#[test]
fn test_text_decoder_respects_typed_array_view() {
    let utf8 = JsTextDecoder::new(None, Some("UTF-8".to_string()), None, None).unwrap();
    let view = BufferSource::View {
        array_buffer: Some(vec![65, 66, 67]),
        typed_array: None,
        offset: 1,
        len: 1,
    };
    assert_eq!(text(utf8.try_decode(&view)), "B");
}

#[test]
fn decoders_tell_their_options() {
    let d = JsTextDecoder::new(
        Some("latin1".to_string()),
        Some("windows-1252".to_string()),
        Some(true),
        Some(true),
    )
    .unwrap();
    assert_eq!(d.encoding(), "windows-1252");
    assert!(d.fatal());
    assert!(d.ignore_bom());
    assert_eq!(
        JsTextDecoder::new(None, None, None, None).err().unwrap(),
        "Failed to construct 'TextDecoder': The encoding label provided ('utf-8') is invalid."
    );
}

#[test]
fn unknown_encodings_decode_nothing() {
    let odd = decoder("odd", "no-such-encoding");
    assert!(odd.try_decode(&bytes(&[65])).is_none());
}

#[test]
fn sources_give_their_bytes() {
    let message = "Failed to execute 'decode' on 'TextDecoder': The provided value is not of type '(ArrayBuffer or ArrayBufferView)'";
    assert_eq!(extract_bytes(&BufferSource::Missing), Ok(None));
    assert_eq!(extract_bytes(&BufferSource::Bytes(None)), Ok(Some(vec![])));
    assert_eq!(extract_bytes(&bytes(&[1, 2])), Ok(Some(vec![1, 2])));
    assert_eq!(extract_bytes(&BufferSource::Other), Err(message.to_string()));
    let outside = BufferSource::View {
        array_buffer: Some(vec![1, 2]),
        typed_array: Some(vec![1, 2, 3, 4]),
        offset: 1,
        len: 3,
    };
    assert_eq!(extract_bytes(&outside), Ok(Some(vec![2, 3, 4])));
    let nowhere = BufferSource::View { array_buffer: Some(vec![1]), typed_array: None, offset: 1, len: 1 };
    assert_eq!(extract_bytes(&nowhere), Err(message.to_string()));
}

#[test]
fn encoded_text_decodes_to_itself() {
    let encoder = JsTextEncoder::new();
    let utf8 = JsTextDecoder::new(None, Some("UTF-8".to_string()), None, None).unwrap();
    let original = "aé€😀".to_string();
    let encoded = encoder.encode(Some(original.clone()));
    assert_eq!(text(utf8.try_decode(&BufferSource::Bytes(Some(encoded)))), original);
    assert!(encoder.encode(None).is_empty());
}

#[test]
fn encode_into_never_splits_a_scalar() {
    let encoder = JsTextEncoder::new();
    let r = encoder.encode_into(Some("a😀b".to_string()), 4);
    assert_eq!((r.read, r.written, r.bytes), (1, 1, vec![b'a']));
    let r = encoder.encode_into(Some("a😀b".to_string()), 5);
    assert_eq!((r.read, r.written), (3, 5));
    let r = encoder.encode_into(Some("é".to_string()), 0);
    assert_eq!((r.read, r.written), (0, 0));
    let r = encoder.encode_into(None, 4);
    assert_eq!((r.read, r.written), (0, 0));
}

#[test]
fn labels_and_queries_fall_back() {
    assert_eq!(encoding_for_label(Some("gbk".to_string())), "gbk");
    assert_eq!(encoding_for_label(None), "");
    assert_eq!(url_encode_query("q=1", None), "q=1");
    assert_eq!(url_encode_query("q=1", Some("q=%31".to_string())), "q=%31");
    assert_eq!(text_decode(Some("hi".to_string())), "{\"ok\":true,\"v\":\"hi\"}");
    assert_eq!(text_decode(None), "{\"ok\":false}");
}

#[test]
fn errors_are_thrown_as_expressions() {
    assert_eq!(throw_range_error("a \"b\""), "new RangeError(\"a \\\"b\\\"\")");
    assert_eq!(throw_type_error("x"), "new TypeError(\"x\")");
}
