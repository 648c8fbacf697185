//! Tests of the chunked string encoder and decoder.

use spnav_rs::error::Error;
use spnav_rs::protocol::{
    encode_string_chunks, req, ReqResp, StringDecoder, REQSTR_CHUNK_SIZE, REQSTR_CONT_BIT, REQ_TAG,
};

// ─── String encoder ─────────────────────────────────────────────────────────

#[test]
fn encode_empty_string() {
    let chunks = encode_string_chunks(req::SET_NAME, "");
    assert_eq!(chunks.len(), 1);
    assert_eq!(chunks[0].data[6], 0);
}

#[test]
fn encode_short_string() {
    let chunks = encode_string_chunks(req::SET_NAME, "hello");
    assert_eq!(chunks.len(), 1);
    assert_eq!(chunks[0].data[6], 5);
}

#[test]
fn encode_exact_chunk_size() {
    let s = "a".repeat(REQSTR_CHUNK_SIZE);
    let chunks = encode_string_chunks(req::SET_NAME, &s);
    assert_eq!(chunks.len(), 1);
    assert_eq!(chunks[0].data[6], REQSTR_CHUNK_SIZE as i32);
}

#[test]
fn encode_multi_chunk_string() {
    let s = "a".repeat(REQSTR_CHUNK_SIZE * 2);
    let chunks = encode_string_chunks(req::SET_NAME, &s);
    assert_eq!(chunks.len(), 2);
    assert_eq!(chunks[0].data[6], (REQSTR_CHUNK_SIZE * 2) as i32);
    assert_eq!(chunks[1].data[6] & 0xFFFF, REQSTR_CHUNK_SIZE as i32);
    assert_ne!(chunks[1].data[6] & REQSTR_CONT_BIT, 0);
}

#[test]
fn encode_multi_chunk_with_remainder() {
    let s = "a".repeat(30);
    let chunks = encode_string_chunks(req::SET_NAME, &s);
    assert_eq!(chunks.len(), 2);
    assert_eq!(chunks[0].data[6], 30);
    assert_eq!(chunks[1].data[6] & 0xFFFF, 6);
}

#[test]
fn encode_sets_request_type() {
    let chunks = encode_string_chunks(req::DEV_NAME, "test");
    assert_eq!(chunks[0].type_, REQ_TAG | req::DEV_NAME);
}

#[test]
fn encode_preserves_string_content() {
    let s = "hello world";
    let chunks = encode_string_chunks(req::SET_NAME, s);
    let rr = &chunks[0];
    let mut bytes = Vec::new();
    let len = (rr.data[6] & 0xFFFF) as usize;
    for i in 0..len {
        let byte = ((rr.data[i / 4] >> ((i % 4) * 8)) & 0xff) as u8;
        bytes.push(byte);
    }
    let decoded = String::from_utf8(bytes).unwrap();
    assert_eq!(decoded, "hello world");
}

#[test]
fn encode_packs_bytes_little_end_first() {
    let chunks = encode_string_chunks(req::SET_NAME, "abcde");
    assert_eq!(chunks[0].data[0], 0x6463_6261);
    assert_eq!(chunks[0].data[1], 0x65);
    assert_eq!(chunks[0].data[2], 0);
}

#[test]
fn encode_continuation_frames_count_down() {
    let s = "z".repeat(60);
    let chunks = encode_string_chunks(req::SCFG_SERDEV, &s);
    assert_eq!(chunks.len(), 3);
    assert_eq!(chunks[0].data[6], 60);
    assert_eq!(chunks[1].data[6], REQSTR_CONT_BIT | 36);
    assert_eq!(chunks[2].data[6], REQSTR_CONT_BIT | 12);
    for c in &chunks {
        assert_eq!(c.type_, REQ_TAG | req::SCFG_SERDEV);
    }
}

// ─── StringDecoder ──────────────────────────────────────────────────────────

#[test]
fn decoder_single_chunk() {
    let chunks = encode_string_chunks(req::SET_NAME, "hello");
    let mut decoder = StringDecoder::new();
    let result = decoder.feed(&chunks[0]).unwrap();
    assert_eq!(result.unwrap(), "hello");
}

#[test]
fn decoder_multi_chunk() {
    let s = "a".repeat(REQSTR_CHUNK_SIZE * 2);
    let chunks = encode_string_chunks(req::SET_NAME, &s);
    let mut decoder = StringDecoder::new();
    let result1 = decoder.feed(&chunks[0]).unwrap();
    assert!(result1.is_none());
    let result2 = decoder.feed(&chunks[1]).unwrap();
    assert_eq!(result2.unwrap(), s);
}

#[test]
fn decoder_multi_chunk_with_remainder() {
    let s = "b".repeat(30);
    let chunks = encode_string_chunks(req::SET_NAME, &s);
    let mut decoder = StringDecoder::new();
    let result1 = decoder.feed(&chunks[0]).unwrap();
    assert!(result1.is_none());
    let result2 = decoder.feed(&chunks[1]).unwrap();
    assert_eq!(result2.unwrap(), s);
}

#[test]
fn decoder_empty_string() {
    let chunks = encode_string_chunks(req::SET_NAME, "");
    let mut decoder = StringDecoder::new();
    let result = decoder.feed(&chunks[0]).unwrap();
    assert_eq!(result.unwrap(), "");
}

#[test]
fn decoder_failure_status_returns_error() {
    let mut rr = ReqResp::zeroed();
    rr.type_ = REQ_TAG | req::SET_NAME;
    rr.data[6] = -1;
    let mut decoder = StringDecoder::new();
    let result = decoder.feed(&rr);
    assert!(result.is_err());
}

#[test]
fn decoder_failure_status_is_daemon_failure() {
    let mut rr = ReqResp::zeroed();
    rr.type_ = REQ_TAG | req::SET_NAME;
    rr.data[6] = -7;
    let mut decoder = StringDecoder::new();
    assert!(matches!(decoder.feed(&rr), Err(Error::DaemonFailure)));
}

#[test]
fn decoder_uninitialized_returns_error() {
    let mut rr = ReqResp::zeroed();
    rr.type_ = REQ_TAG | req::SET_NAME;
    rr.data[6] = REQSTR_CONT_BIT | 5;
    let mut decoder = StringDecoder::new();
    let result = decoder.feed(&rr);
    assert!(result.is_err());
}

#[test]
fn decoder_uninitialized_error_message() {
    let mut rr = ReqResp::zeroed();
    rr.data[6] = REQSTR_CONT_BIT | 3;
    let mut decoder = StringDecoder::new();
    match decoder.feed(&rr) {
        Err(Error::Protocol(msg)) => assert_eq!(msg, "string decoder not initialized"),
        other => panic!("expected a protocol error, got {:?}", other),
    }
}

#[test]
fn decoder_reuse_after_completion() {
    let chunks1 = encode_string_chunks(req::SET_NAME, "first");
    let chunks2 = encode_string_chunks(req::DEV_NAME, "second");
    let mut decoder = StringDecoder::new();
    let result1 = decoder.feed(&chunks1[0]).unwrap();
    assert_eq!(result1.unwrap(), "first");
    let result2 = decoder.feed(&chunks2[0]).unwrap();
    assert_eq!(result2.unwrap(), "second");
}

#[test]
fn decoder_preserves_utf8() {
    let s = "Hello, 世界! 🌍";
    let chunks = encode_string_chunks(req::SET_NAME, s);
    let mut decoder = StringDecoder::new();
    let result = decoder.feed(&chunks[0]).unwrap();
    assert_eq!(result.unwrap(), s);
}

#[test]
fn decoder_replaces_invalid_utf8() {
    let mut rr = ReqResp::zeroed();
    rr.data[0] = 0x0000_ff41;
    rr.data[6] = 2;
    let mut decoder = StringDecoder::new();
    let text = decoder.feed(&rr).unwrap().unwrap();
    assert_eq!(text, "A\u{fffd}");
}

#[test]
fn decoder_overrun_is_reported_before_feeding() {
    let chunks = encode_string_chunks(req::SET_NAME, "abc");
    let decoder = StringDecoder::new();
    assert!(!decoder.overruns(&chunks[0]));
    let mut cont = ReqResp::zeroed();
    cont.data[6] = REQSTR_CONT_BIT | 30;
    let mut started = StringDecoder::new();
    let first = encode_string_chunks(req::SET_NAME, &"q".repeat(30));
    assert!(started.feed(&first[0]).unwrap().is_none());
    assert!(started.overruns(&cont));
    assert!(!decoder.overruns(&cont));
}

// ─── Roundtrips ─────────────────────────────────────────────────────────────

#[test]
fn encode_decode_roundtrip_short() {
    let original = "test string";
    let chunks = encode_string_chunks(req::SET_NAME, original);
    let mut decoder = StringDecoder::new();
    let decoded = decoder.feed(&chunks[0]).unwrap().unwrap();
    assert_eq!(decoded, original);
}

#[test]
fn encode_decode_roundtrip_long() {
    let original = "x".repeat(100);
    let chunks = encode_string_chunks(req::SET_NAME, &original);
    let mut decoder = StringDecoder::new();
    let mut last_result = None;
    for chunk in &chunks {
        last_result = decoder.feed(chunk).unwrap();
    }
    assert_eq!(last_result.unwrap(), original);
}

#[test]
fn encode_decode_roundtrip_empty() {
    let original = "";
    let chunks = encode_string_chunks(req::SET_NAME, original);
    let mut decoder = StringDecoder::new();
    let decoded = decoder.feed(&chunks[0]).unwrap().unwrap();
    assert_eq!(decoded, original);
}

#[test]
fn encode_decode_roundtrip_special_chars() {
    let original = "path/to/file\nwith\ttabs";
    let chunks = encode_string_chunks(req::SET_NAME, original);
    let mut decoder = StringDecoder::new();
    let decoded = decoder.feed(&chunks[0]).unwrap().unwrap();
    assert_eq!(decoded, original);
}

#[test]
fn roundtrip_of_multibyte_text_across_chunks() {
    let original = "ünïcödé ✓ ".repeat(7);
    let chunks = encode_string_chunks(req::SET_NAME, &original);
    assert!(chunks.len() > 2);
    let mut decoder = StringDecoder::new();
    let mut outputs = Vec::new();
    for chunk in &chunks {
        assert!(!decoder.overruns(chunk));
        outputs.push(decoder.feed(chunk).unwrap());
    }
    let (last, rest) = outputs.split_last().unwrap();
    assert!(rest.iter().all(|o| o.is_none()));
    assert_eq!(last.as_deref(), Some(original.as_str()));
}

// ─── Constants ──────────────────────────────────────────────────────────────

#[test]
fn reqstr_chunk_size_is_24() {
    assert_eq!(REQSTR_CHUNK_SIZE, 24);
}

#[test]
fn reqstr_cont_bit_is_0x10000() {
    assert_eq!(REQSTR_CONT_BIT, 0x10000);
}

#[test]
fn default_decoder_is_fresh() {
    let mut decoder = StringDecoder::default();
    let chunks = encode_string_chunks(req::SET_NAME, "abc");
    assert_eq!(decoder.feed(&chunks[0]).unwrap().unwrap(), "abc");
    let mut cont = ReqResp::zeroed();
    cont.data[6] = REQSTR_CONT_BIT | 2;
    assert!(StringDecoder::default().feed(&cont).is_err());
}
