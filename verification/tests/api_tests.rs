use model_surgery::api::{
    apply_stop_strings, authorized, benchmark_completion_output, chat_finish_reason_label,
    chat_message_content_for_generation, chat_messages_for_generation,
    chat_template_kwargs_with_thinking_default, check_completion_messages, diagnostic_excerpt,
    find_header_end, is_public_route, model_id_from_path, native_stop_strings, parse_request,
    request_complete, route_request, smoke_response, stop_strings, streaming_completion_delta_outputs,
    thinking_override_line, header_content_length,
    ApiRoute, ChatCompletionDiagnostics, ChatGenerationMessages, ChatMessage,
    ChatTemplateThinkingOverride, ContentPart, HttpRequest, KwargsAction, MessageContent,
    ModelInspectorApiLifecycle, ModelInspectorApiStatus, RequestKwargs, StopField,
};
use model_surgery::runtime::ChatFinishReason;

fn request(method: &str, path: &str, token: Option<&str>, body: &str) -> HttpRequest {
    HttpRequest {
        method: method.to_string(),
        path: path.to_string(),
        authorization: token.map(|token| format!("Bearer {token}")),
        body: body.to_string(),
    }
}

fn text_part(text: &str) -> ContentPart {
    ContentPart { kind: Some("text".to_string()), text: Some(text.to_string()), image_url: None }
}

fn image_part(url: &str) -> ContentPart {
    ContentPart { kind: Some("image_url".to_string()), text: None, image_url: Some(url.to_string()) }
}

#[test]
fn rejects_missing_bearer_token() {
    let body = "{\"model\":\"Qwen3.5-9B-Q4_K_M.gguf\",\"messages\":[{\"role\":\"user\",\"content\":\"Say hello\"}]}";
    let route = route_request(
        &request("POST", "/v1/chat/completions", None, body),
        "test-token",
        false,
    );
    assert_eq!(route, ApiRoute::Unauthorized);
}

#[test]
fn serves_models_without_auth_like_llama_cpp() {
    let route = route_request(&request("GET", "/v1/models", None, ""), "test-token", false);
    assert_eq!(route, ApiRoute::Models);
}

#[test]
fn routes_requests_by_method_path_and_token() {
    let token = "test-token";
    assert_eq!(route_request(&request("OPTIONS", "/anything", None, ""), token, false), ApiRoute::Preflight);
    assert_eq!(
        route_request(&request("POST", "/v1/chat/completions", Some(token), "{}"), token, false),
        ApiRoute::ChatCompletions
    );
    assert_eq!(
        route_request(&request("POST", "/v1/chat/completions", Some(token), "{}"), token, true),
        ApiRoute::ChatCompletionsStream
    );
    assert_eq!(
        route_request(&request("POST", "/v1/chat/completions", Some("wrong"), "{}"), token, false),
        ApiRoute::Unauthorized
    );
    assert_eq!(route_request(&request("GET", "/v1/other", Some(token), ""), token, false), ApiRoute::NotFound);
    assert!(authorized(&request("GET", "/", Some(token), ""), token));
    assert!(is_public_route(&request("GET", "/v1/models", None, "")));
}

#[test]
fn parses_raw_requests() {
    let raw = "POST /v1/chat/completions HTTP/1.1\r\nHost: x\r\nauthorization:  Bearer abc \r\n\r\n{\"a\":1}";
    let req = parse_request(raw).unwrap();
    assert_eq!(req.method, "POST");
    assert_eq!(req.path, "/v1/chat/completions");
    assert_eq!(req.authorization.as_deref(), Some("Bearer abc"));
    assert_eq!(req.body, "{\"a\":1}");
    assert_eq!(
        parse_request("GET / HTTP/1.1\r\n").unwrap_err(),
        "Malformed HTTP request: missing header terminator"
    );
    assert_eq!(parse_request("GET\r\n\r\n").unwrap_err(), "Malformed HTTP request: missing path");
}

#[test]
fn waits_for_the_whole_body() {
    let head = b"POST / HTTP/1.1\r\nContent-Length: 5\r\n\r\n";
    assert_eq!(find_header_end(head), Some(head.len() - 4));
    assert!(!request_complete(head));
    let mut full = head.to_vec();
    full.extend_from_slice(b"hello");
    assert!(request_complete(&full));
    assert!(!request_complete(b"GET / HTTP/1.1\r\n"));
    assert!(request_complete(b"GET / HTTP/1.1\r\n\r\n"));
}

#[test]
fn maps_native_chat_finish_reasons_to_openai_labels() {
    assert_eq!(chat_finish_reason_label(ChatFinishReason::Stop), "stop");
    assert_eq!(chat_finish_reason_label(ChatFinishReason::Length), "length");
    assert_eq!(chat_finish_reason_label(ChatFinishReason::Eos), "stop");
}

#[test]
fn stop_strings_are_forwarded_to_native_generation() {
    let stops = stop_strings(Some(StopField::Many(vec!["</s>".to_string(), "<|im_end|>".to_string()])));
    assert_eq!(native_stop_strings(&stops), vec!["</s>", "<|im_end|>"]);
}

#[test]
fn empty_stop_strings_are_dropped_and_content_is_cut() {
    let stops = stop_strings(Some(StopField::Many(vec!["".to_string(), "END".to_string()])));
    assert_eq!(native_stop_strings(&stops), vec!["END"]);
    assert_eq!(stop_strings(Some(StopField::One("x".to_string()))), vec!["x"]);
    assert!(stop_strings(None).is_empty());
    let mut content = "abc STOP def END".to_string();
    let label = apply_stop_strings(&mut content, &["END".to_string(), "STOP".to_string()]);
    assert_eq!(label, "stop");
    assert_eq!(content, "abc ");
    let mut untouched = "abc".to_string();
    apply_stop_strings(&mut untouched, &["".to_string()]);
    assert_eq!(untouched, "abc");
}

#[test]
fn defaults_chat_template_thinking_to_disabled_when_request_omits_it() {
    let (action, thinking_override) = chat_template_kwargs_with_thinking_default(&RequestKwargs::Absent, None);
    assert_eq!(action, KwargsAction::Create(false));
    assert_eq!(thinking_override, None);
}

#[test]
fn applies_configured_template_thinking_default_when_request_omits_it() {
    let kwargs = RequestKwargs::Object { enable_thinking: None };
    let (action, thinking_override) = chat_template_kwargs_with_thinking_default(&kwargs, Some(true));
    assert_eq!(action, KwargsAction::Insert(true));
    assert_eq!(thinking_override, None);
}

#[test]
fn preserves_request_template_thinking_and_records_override() {
    let kwargs = RequestKwargs::Object { enable_thinking: Some(Some(false)) };
    let (action, thinking_override) = chat_template_kwargs_with_thinking_default(&kwargs, Some(true));
    assert_eq!(action, KwargsAction::Keep);
    assert_eq!(
        thinking_override,
        Some(ChatTemplateThinkingOverride {
            configured: true,
            requested: false,
        })
    );
}

#[test]
fn accepts_openai_text_content_parts_for_chat_messages() {
    let messages = vec![ChatMessage {
        role: "user".to_string(),
        content: MessageContent::Parts(vec![text_part("Say "), text_part("hello")]),
    }];

    let messages = chat_messages_for_generation(&messages).unwrap();

    assert_eq!(
        messages.messages,
        vec![("user".to_string(), "Say hello".to_string())]
    );
    assert!(messages.image_data_urls.is_empty());
}

#[test]
fn accepts_openai_data_image_content_parts_for_chat_messages() {
    let messages = vec![ChatMessage {
        role: "user".to_string(),
        content: MessageContent::Parts(vec![
            text_part("What is in this image?"),
            image_part("data:image/png;base64,iVBORw0KGgo="),
        ]),
    }];

    let messages = chat_messages_for_generation(&messages).unwrap();

    assert_eq!(
        messages.messages,
        vec![(
            "user".to_string(),
            "What is in this image?<__media__>".to_string()
        )]
    );
    assert_eq!(messages.image_data_urls.len(), 1);
    assert!(messages.image_data_urls[0].starts_with("data:image/png;base64,"));
}

#[test]
fn rejects_image_input_without_a_loaded_projector() {
    let messages = vec![ChatMessage {
        role: "user".to_string(),
        content: MessageContent::Parts(vec![image_part("data:image/png;base64,iVBORw0KGgo=")]),
    }];
    let generation = chat_messages_for_generation(&messages).unwrap();
    let error = check_completion_messages(&generation, false).unwrap_err();
    assert!(error.contains("MMPROJ"));
    assert!(check_completion_messages(&generation, true).is_ok());
}

#[test]
fn rejects_remote_image_urls_for_chat_messages() {
    let messages = vec![ChatMessage {
        role: "user".to_string(),
        content: MessageContent::Parts(vec![image_part("https://example.com/image.png")]),
    }];

    let error = chat_messages_for_generation(&messages).unwrap_err();

    assert!(error.contains("remote URLs are not supported"));
}

#[test]
fn unsupported_content_is_refused() {
    let mut urls = Vec::new();
    assert_eq!(
        chat_message_content_for_generation(&MessageContent::Text("plain".to_string()), &mut urls).unwrap(),
        "plain"
    );
    assert!(chat_message_content_for_generation(&MessageContent::Unsupported, &mut urls).is_err());
    let empty = ChatGenerationMessages { messages: vec![("user".to_string(), "  ".to_string())], image_data_urls: Vec::new() };
    assert_eq!(
        check_completion_messages(&empty, true).unwrap_err(),
        "Chat completion request must include at least one message"
    );
}

#[test]
fn formats_benchmark_completion_output_as_api_diagnostic_only() {
    let diagnostics = ChatCompletionDiagnostics {
        model: "gemma".to_string(),
        finish_reason: "stop".to_string(),
        prompt_tokens: 12,
        completion_tokens: 34,
        total_tokens: 46,
        visible_content: "ANSWER: C".to_string(),
        reasoning_content: Some("private reasoning".to_string()),
    };

    let output = benchmark_completion_output("ModelInspector API", 12, Some(198), &diagnostics);

    assert!(output.contains("ModelInspector API: chat completion request 12/198 completed"));
    assert!(output.contains("finish=stop"));
    assert!(output.contains("visible output"));
    assert!(output.contains("ANSWER: C"));
    assert!(output.contains("reasoning output"));
    assert!(output.contains("private reasoning"));
    assert!(output.find("reasoning output").unwrap() < output.find("visible output").unwrap());
}

#[test]
fn formats_streaming_delta_output_with_reasoning_before_visible() {
    let output =
        streaming_completion_delta_outputs("ModelInspector API", 3, Some(10), "ANSWER", "why");

    assert_eq!(
        output,
        vec![
            "ModelInspector API: chat completion request 3/10 reasoning delta\nwhy",
            "ModelInspector API: chat completion request 3/10 visible delta\nANSWER",
        ]
    );
}

#[test]
fn long_diagnostics_are_excerpted() {
    let text = "a".repeat(5000);
    let e = diagnostic_excerpt(&text);
    assert_eq!(e.chars().count(), 2048 + "\n[... truncated ...]\n".len() + 2048);
    assert_eq!(diagnostic_excerpt("short"), "short");
}

#[test]
fn smoke_responses_count_prompt_characters() {
    let reply = smoke_response("m.gguf", &vec![("user".to_string(), "héllo".to_string())]);
    assert_eq!(reply, "Model Inspector API smoke response for m.gguf. Received 5 prompt character(s).");
}

#[test]
fn model_ids_fall_back_to_a_local_name() {
    assert_eq!(model_id_from_path(Some("x.gguf".to_string())), "x.gguf");
    assert_eq!(model_id_from_path(None), "modelinspector-local");
}

#[test]
fn api_startup_lifecycle_blocks_reentry_until_cancelled_start_finishes() {
    let mut lifecycle: ModelInspectorApiLifecycle<u32> = ModelInspectorApiLifecycle::new();
    let (first_start, old_server) = lifecycle.begin_start().unwrap();

    assert!(old_server.is_none());
    assert!(matches!(
        lifecycle.begin_start(),
        Err(message) if message.contains("already starting")
    ));

    let old_server = lifecycle.cancel();

    assert!(old_server.is_none());
    assert!(lifecycle.cancel_requested(&first_start));
    assert!(matches!(
        lifecycle.begin_start(),
        Err(message) if message.contains("already starting")
    ));
    assert!(!lifecycle.finish_start(&first_start, None));
    assert!(lifecycle.begin_start().is_ok());
}

#[test]
fn a_finished_start_installs_its_server() {
    let mut lifecycle: ModelInspectorApiLifecycle<u32> = ModelInspectorApiLifecycle::new();
    let (start, _) = lifecycle.begin_start().unwrap();
    assert!(lifecycle.finish_start(&start, Some(7)));
    assert_eq!(lifecycle.server, Some(7));
    let (_, old) = lifecycle.begin_start().unwrap();
    assert_eq!(old, Some(7));
}

#[test]
fn api_status_reflects_the_server() {
    let running = ModelInspectorApiStatus::of_server(Some((
        "http://127.0.0.1:8080/v1".to_string(),
        "key".to_string(),
        "m.gguf".to_string(),
    )));
    assert!(running.running);
    assert_eq!(running.model_id.as_deref(), Some("m.gguf"));
    let stopped = ModelInspectorApiStatus::of_server(None);
    assert!(!stopped.running);
    assert!(stopped.base_url.is_none());
}

#[test]
fn reports_a_thinking_override() {
    assert_eq!(
        thinking_override_line("GPQA", &ChatTemplateThinkingOverride { configured: false, requested: true }),
        "GPQA: request chat_template_kwargs.enable_thinking=true overrides configured default=false"
    );
    assert_eq!(
        thinking_override_line("HumanEval", &ChatTemplateThinkingOverride { configured: true, requested: false }),
        "HumanEval: request chat_template_kwargs.enable_thinking=false overrides configured default=true"
    );
}

#[test]
fn reads_the_declared_body_length() {
    assert_eq!(header_content_length("POST /v1/chat/completions HTTP/1.1\r\nHost: x\r\nContent-Length:  42 \r\n"), 42);
    assert_eq!(header_content_length("POST / HTTP/1.1\r\ncontent-length: +7\r\nContent-Length: 9"), 7);
    assert_eq!(header_content_length("POST / HTTP/1.1\r\nContent-Length: x\r\nContent-Length: 5"), 5);
    assert_eq!(header_content_length("GET / HTTP/1.1\r\nHost: x"), 0);
}
