use base64::Engine;
use rust_journey::config::AppConfig;
use rust_journey::openai::{
    api_error, classify_stream_event, compact_body, completed_image, handle_stream_event,
    is_success_status, prepare_image_request, ApiInputTokenDetails, ApiUsage, GeneratedImage,
    ImageProgress, ImageStream, NextStep, OpenAiError, StreamEvent, StreamStep,
};
use rust_journey::pricing::TokenUsage;

fn json_error(message: &str) -> serde_json::Error {
    <serde_json::Error as serde::de::Error>::custom(message)
}

/// Reads an event payload as a typed event, the way the client's serde
/// derive does, written out by hand.
fn read_event(data: &[u8]) -> Result<StreamEvent, serde_json::Error> {
    let value: serde_json::Value = serde_json::from_slice(data)?;
    let number = |v: &serde_json::Value| v.as_u64().ok_or_else(|| json_error("not a number"));
    match value["type"].as_str() {
        Some("image_generation.partial_image") => Ok(StreamEvent::PartialImage {
            partial_image_index: number(&value["partial_image_index"])? as u8,
        }),
        Some("image_generation.completed") => {
            let usage = &value["usage"];
            let usage = if usage.is_null() {
                None
            } else {
                let details = &usage["input_tokens_details"];
                Some(ApiUsage {
                    input_tokens: number(&usage["input_tokens"])?,
                    output_tokens: number(&usage["output_tokens"])?,
                    input_tokens_details: if details.is_null() {
                        None
                    } else {
                        Some(ApiInputTokenDetails {
                            text_tokens: number(&details["text_tokens"])?,
                            image_tokens: number(&details["image_tokens"])?,
                        })
                    },
                })
            };
            Ok(StreamEvent::Completed {
                b64_json: value["b64_json"]
                    .as_str()
                    .ok_or_else(|| json_error("missing field `b64_json`"))?
                    .to_string(),
                usage,
            })
        }
        _ => Err(json_error("unknown variant")),
    }
}

fn handle(data: &[u8]) -> Result<StreamStep, OpenAiError> {
    handle_stream_event(data, read_event(data))
}

fn config(model: &str, size: &str, quality: &str) -> AppConfig {
    AppConfig::from_env(
        Ok("key".into()),
        Ok("https://api.openai.com/v1/images/generations".into()),
        Ok(model.into()),
        Ok(size.into()),
        Ok(quality.into()),
    )
    .unwrap()
}

#[test]
fn error_bodies_are_bounded() {
    let body = "x".repeat(2_001);
    assert_eq!(compact_body(&body).len(), 2_003);
}

#[test]
fn unicode_error_bodies_are_truncated_on_character_boundaries() {
    let body = "错".repeat(1_000);
    let compacted = compact_body(&body);
    assert!(compacted.ends_with("..."));
    assert!(compacted.len() <= 2_003);
}

#[test]
fn short_error_bodies_are_only_trimmed() {
    assert_eq!(compact_body("  {\"error\": 1}\n"), "{\"error\": 1}");
    let exact = "y".repeat(2_000);
    assert_eq!(compact_body(&exact), exact);
    let body = "错".repeat(1_000);
    let compacted = compact_body(&body);
    assert_eq!(compacted, format!("{}...", "错".repeat(666)));
}

#[test]
fn maps_api_usage_to_pricing_usage() {
    let api_usage = ApiUsage {
        input_tokens: 120,
        output_tokens: 5500,
        input_tokens_details: Some(ApiInputTokenDetails { text_tokens: 120, image_tokens: 0 }),
    };

    assert_eq!(
        TokenUsage::from(api_usage),
        TokenUsage {
            text_input_tokens: 120,
            image_input_tokens: 0,
            image_output_tokens: 5_500,
        }
    );
}

#[test]
fn usage_without_details_counts_all_input_as_text() {
    let api_usage = ApiUsage { input_tokens: 40, output_tokens: 7, input_tokens_details: None };
    assert_eq!(
        TokenUsage::from(api_usage),
        TokenUsage { text_input_tokens: 40, image_input_tokens: 0, image_output_tokens: 7 }
    );
}

#[test]
fn image_request_enables_streaming_and_one_partial_image() {
    let config = config("gpt-image-2", "1024x1536", "high");
    let request =
        prepare_image_request(config.model(), config.size(), config.quality(), "prompt")
            .expect("request should be built");

    assert_eq!(request.model, "gpt-image-2");
    assert_eq!(request.prompt, "prompt");
    assert_eq!(request.size, "1024x1536");
    assert_eq!(request.quality, "high");
    assert!(request.stream);
    assert_eq!(request.partial_images, 1);
}

#[test]
fn blank_prompts_are_rejected() {
    let config = config("gpt-image-2", "1024x1024", "low");
    let prepare = |prompt: &str| {
        prepare_image_request(config.model(), config.size(), config.quality(), prompt)
    };
    assert!(matches!(prepare(" \n\t"), Err(OpenAiError::EmptyPrompt)));
    let request = prepare("\n a poster \n").unwrap();
    assert_eq!(request.prompt, "a poster");
}

#[test]
fn handles_partial_and_completed_events() {
    let mut progress = Vec::new();
    let partial = br#"{"type":"image_generation.partial_image","partial_image_index":0}"#;
    match handle(partial).expect("partial event should parse") {
        StreamStep::Progress(event) => progress.push(event),
        other => panic!("unexpected step {other:?}"),
    }
    assert_eq!(progress, vec![ImageProgress { partial_image_index: 0 }]);

    let encoded = base64::engine::general_purpose::STANDARD.encode(b"image bytes");
    let completed = format!(
        r#"{{"type":"image_generation.completed","b64_json":"{encoded}","usage":{{"input_tokens":2,"output_tokens":3,"input_tokens_details":{{"text_tokens":2,"image_tokens":0}}}}}}"#
    );
    let image = match handle(completed.as_bytes()).expect("completed event should parse") {
        StreamStep::Completed(image) => image,
        other => panic!("completed event should contain an image, got {other:?}"),
    };

    assert_eq!(image.bytes, b"image bytes");
    assert_eq!(
        image.usage,
        Some(TokenUsage {
            text_input_tokens: 2,
            image_input_tokens: 0,
            image_output_tokens: 3,
        })
    );
}

#[test]
fn surfaces_stream_error_without_a_type_field() {
    let data = br#"{"error":{"code":"server_error","message":"try again"}}"#;
    let error = handle(data).expect_err("stream error should be returned");

    assert!(error.message().contains("server_error"));
    assert!(matches!(error, OpenAiError::StreamApi { .. }));
}

#[test]
fn stream_errors_carry_the_error_member_as_json() {
    let data = br#" {"type":"image_generation.partial_image","partial_image_index":0, "error" : { "code" : "server_error" } }"#;
    let error = handle(data).unwrap_err();
    match &error {
        OpenAiError::StreamApi { body } => assert_eq!(body, r#"{"code":"server_error"}"#),
        other => panic!("unexpected error {other:?}"),
    }
    assert_eq!(error.message(), r#"OpenAI 流返回错误: {"code":"server_error"}"#);

    let data = br#"{"error":"quota"}"#;
    assert!(matches!(handle(data), Err(OpenAiError::StreamApi { ref body }) if body == "\"quota\""));
}

#[test]
fn done_marker_and_empty_payloads_are_ignored() {
    for data in [&b""[..], b"[DONE]", b"[DONE] trailing"] {
        assert!(matches!(handle(data), Ok(StreamStep::Ignored)));
    }
}

#[test]
fn unreadable_payloads_are_reported_with_their_text() {
    let data = b"not json \xff";
    let error = handle(data).unwrap_err();
    match &error {
        OpenAiError::InvalidStreamEvent { body, .. } => assert_eq!(body, "not json \u{fffd}"),
        other => panic!("unexpected error {other:?}"),
    }
    assert!(error.message().starts_with("OpenAI 返回了无法解析的流事件: "));
    assert!(error.message().ends_with("; body: not json \u{fffd}"));

    // Not JSON: reported even when the typed reading claims an event.
    let data = b"[1, 2";
    let event = Ok(StreamEvent::PartialImage { partial_image_index: 0 });
    assert!(matches!(
        handle_stream_event(data, event),
        Err(OpenAiError::InvalidStreamEvent { ref body, .. }) if body == "[1, 2"
    ));

    let data = br#"{"type":"unknown"}"#;
    let error = handle(data).unwrap_err();
    assert!(matches!(error, OpenAiError::InvalidStreamEvent { ref body, .. } if body == r#"{"type":"unknown"}"#));
}

#[test]
fn classification_follows_the_json_reading() {
    let data = b"{}";
    let partial = || Ok(StreamEvent::PartialImage { partial_image_index: 2 });
    assert!(matches!(
        classify_stream_event(data, Err(json_error("bad")), partial()),
        Err(OpenAiError::InvalidStreamEvent { ref body, .. }) if body == "{}"
    ));
    assert!(matches!(
        classify_stream_event(data, Ok(Some("  \"boom\" ".to_string())), partial()),
        Err(OpenAiError::StreamApi { ref body }) if body == "\"boom\""
    ));
    assert!(matches!(
        classify_stream_event(data, Ok(None), partial()),
        Ok(StreamStep::Progress(ImageProgress { partial_image_index: 2 }))
    ));
    assert!(matches!(
        classify_stream_event(b"[DONE]", Err(json_error("bad")), partial()),
        Ok(StreamStep::Ignored)
    ));
}

#[test]
fn completed_events_need_valid_non_empty_images() {
    let event = |b64: &str| Ok(StreamEvent::Completed { b64_json: b64.to_string(), usage: None });
    let error = handle_stream_event(b"{}", event("not base64!")).unwrap_err();
    assert!(matches!(error, OpenAiError::DecodeImage(_)));
    assert!(error.message().starts_with("图片内容不是有效的 base64: "));
    let error = handle_stream_event(b"{}", event("")).unwrap_err();
    assert!(matches!(error, OpenAiError::MissingImageData));
    match handle_stream_event(b"{}", event("AAE=")).unwrap() {
        StreamStep::Completed(image) => {
            assert_eq!(image.bytes, vec![0u8, 1]);
            assert_eq!(image.usage, None);
        }
        other => panic!("unexpected step {other:?}"),
    }
}

#[test]
fn completed_images_from_decoded_bytes() {
    let decode_error = base64::engine::general_purpose::STANDARD.decode("A").unwrap_err();
    let expected = decode_error.clone();
    assert!(matches!(completed_image(Err(decode_error), None), Err(OpenAiError::DecodeImage(e)) if e == expected));
    assert!(matches!(completed_image(Ok(Vec::new()), None), Err(OpenAiError::MissingImageData)));
    let usage = ApiUsage { input_tokens: 9, output_tokens: 4, input_tokens_details: None };
    let image = completed_image(Ok(vec![7, 8]), Some(usage)).unwrap();
    assert_eq!(image.bytes, vec![7, 8]);
    assert_eq!(
        image.usage,
        Some(TokenUsage { text_input_tokens: 9, image_input_tokens: 0, image_output_tokens: 4 })
    );
}

#[test]
fn the_first_completed_image_ends_the_stream() {
    let stream = ImageStream::new();
    assert!(!stream.is_finished());
    assert!(matches!(stream.into_result(), Err(OpenAiError::StreamEndedWithoutCompletion)));

    let mut stream = ImageStream::new();
    assert_eq!(
        stream.take_step(Ok(StreamStep::Progress(ImageProgress { partial_image_index: 0 }))),
        NextStep::Report(ImageProgress { partial_image_index: 0 })
    );
    assert_eq!(stream.take_step(Ok(StreamStep::Ignored)), NextStep::Continue);
    assert!(!stream.is_finished());
    let first = GeneratedImage { bytes: vec![1], usage: None };
    let second = GeneratedImage { bytes: vec![2], usage: None };
    assert_eq!(stream.take_step(Ok(StreamStep::Completed(first))), NextStep::Finished);
    assert!(stream.is_finished());
    assert_eq!(stream.take_step(Ok(StreamStep::Completed(second))), NextStep::Finished);
    assert_eq!(
        stream.take_step(Err(OpenAiError::StreamApi { body: "late".into() })),
        NextStep::Finished
    );
    assert_eq!(stream.into_result().unwrap().bytes, vec![1]);
}

#[test]
fn the_first_error_ends_the_stream() {
    let mut stream = ImageStream::new();
    assert_eq!(stream.take_step(Err(OpenAiError::MissingImageData)), NextStep::Finished);
    assert!(stream.is_finished());
    let image = GeneratedImage { bytes: vec![3], usage: None };
    assert_eq!(stream.take_step(Ok(StreamStep::Completed(image))), NextStep::Finished);
    assert!(matches!(stream.into_result(), Err(OpenAiError::MissingImageData)));
}

#[test]
fn payloads_after_the_completed_event_are_not_read() {
    let encoded = base64::engine::general_purpose::STANDARD.encode(b"poster");
    let partial = br#"{"type":"image_generation.partial_image","partial_image_index":0}"#.to_vec();
    let completed = format!(r#"{{"type":"image_generation.completed","b64_json":"{encoded}"}}"#)
        .into_bytes();
    let late_error = br#"{"error":{"code":"server_error"}}"#.to_vec();

    let mut stream = ImageStream::new();
    let mut reported = Vec::new();
    for data in [partial, b"[DONE]".to_vec(), completed, late_error, b"not json".to_vec()] {
        match stream.take_payload(&data, read_event(&data)) {
            NextStep::Continue => {}
            NextStep::Report(progress) => reported.push(progress),
            NextStep::Finished => {}
        }
    }
    assert_eq!(reported, vec![ImageProgress { partial_image_index: 0 }]);
    assert_eq!(stream.into_result().unwrap().bytes, b"poster");
}

#[test]
fn an_error_event_ends_the_stream_with_that_error() {
    let mut stream = ImageStream::new();
    let error = br#"{"error":{"code":"server_error"}}"#;
    assert_eq!(stream.take_payload(error, read_event(error)), NextStep::Finished);
    let encoded = base64::engine::general_purpose::STANDARD.encode(b"poster");
    let completed = format!(r#"{{"type":"image_generation.completed","b64_json":"{encoded}"}}"#);
    assert_eq!(
        stream.take_payload(completed.as_bytes(), read_event(completed.as_bytes())),
        NextStep::Finished
    );
    assert!(matches!(
        stream.into_result(),
        Err(OpenAiError::StreamApi { ref body }) if body == r#"{"code":"server_error"}"#
    ));
}

#[test]
fn success_statuses_are_the_2xx_range() {
    assert!(is_success_status(200));
    assert!(is_success_status(204));
    assert!(is_success_status(299));
    assert!(!is_success_status(199));
    assert!(!is_success_status(300));
    assert!(!is_success_status(401));
    assert!(!is_success_status(500));
}

#[test]
fn http_errors_carry_status_and_compact_body() {
    let error = api_error(401, "  {\"error\":\"bad key\"}\n");
    assert!(matches!(error, OpenAiError::Api { status: 401, ref body } if body == "{\"error\":\"bad key\"}"));
    assert_eq!(error.message(), "OpenAI API 返回 HTTP 401: {\"error\":\"bad key\"}");
}

#[test]
fn fixed_error_messages() {
    assert_eq!(OpenAiError::EmptyPrompt.message(), "图片 prompt 不能为空");
    assert_eq!(OpenAiError::MissingImageData.message(), "OpenAI 响应中没有图片数据");
    assert_eq!(
        OpenAiError::StreamEndedWithoutCompletion.message(),
        "OpenAI 流在返回完成事件前已结束"
    );
    assert_eq!(
        OpenAiError::StreamApi { body: "x".into() }.message(),
        "OpenAI 流返回错误: x"
    );
}
