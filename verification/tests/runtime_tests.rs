use model_surgery::runtime::ChatFinishReason;

#[test]
fn reads_native_finish_reasons() {
    assert_eq!(ChatFinishReason::from_native(0).unwrap(), ChatFinishReason::Stop);
    assert_eq!(ChatFinishReason::from_native(1).unwrap(), ChatFinishReason::Length);
    assert_eq!(ChatFinishReason::from_native(2).unwrap(), ChatFinishReason::Eos);
    assert_eq!(
        ChatFinishReason::from_native(7).unwrap_err(),
        "unknown native chat finish reason: 7"
    );
}
