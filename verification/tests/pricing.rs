use rust_journey::pricing::{
    calculate_cost, cost_report, estimate_output_cost, CostReport, PricingError, TokenUsage, Usd,
};

fn usd(amount: Usd) -> f64 {
    amount.micros as f64 / 1_000_000.0
}

#[test]
fn calculates_cost_from_token_usage() {
    let cost = calculate_cost(
        "gpt-image-2",
        TokenUsage {
            text_input_tokens: 1_000,
            image_input_tokens: 0,
            image_output_tokens: 5_500,
        },
    )
    .expect("gpt-image-2 should have pricing data");

    assert!((usd(cost.text_input_usd) - 0.005).abs() < f64::EPSILON);
    assert!((usd(cost.image_output_usd) - 0.165).abs() < f64::EPSILON);
    assert!((usd(cost.total_usd()) - 0.170).abs() < f64::EPSILON);
}

#[test]
fn estimates_published_portrait_output_cost() {
    let cost = estimate_output_cost("gpt-image-2", "1024x1536", "high")
        .expect("published size and quality should be supported");

    assert!((usd(cost) - 0.165).abs() < f64::EPSILON);
}

#[test]
fn accepts_the_published_snapshot() {
    assert!(estimate_output_cost("gpt-image-2-2026-04-21", "1024x1536", "low").is_ok());
}

#[test]
fn cost_is_exact_in_micro_dollars() {
    let cost = calculate_cost(
        "gpt-image-2-2026-04-21",
        TokenUsage { text_input_tokens: 368, image_input_tokens: 7, image_output_tokens: 5_500 },
    )
    .unwrap();
    assert_eq!(cost.text_input_usd.micros, 1_840);
    assert_eq!(cost.image_input_usd.micros, 56);
    assert_eq!(cost.image_output_usd.micros, 165_000);
    assert_eq!(cost.total_usd().micros, 166_896);
    assert_eq!(cost.total_usd().to_text(), "0.166896");
    assert_eq!(cost.text_input_usd.to_text(), "0.001840");
}

#[test]
fn largest_usage_does_not_overflow() {
    let cost = calculate_cost(
        "gpt-image-2",
        TokenUsage {
            text_input_tokens: u64::MAX,
            image_input_tokens: u64::MAX,
            image_output_tokens: u64::MAX,
        },
    )
    .unwrap();
    assert_eq!(cost.total_usd().micros, u64::MAX as u128 * 43);
}

#[test]
fn unknown_models_are_not_priced() {
    let usage = TokenUsage { text_input_tokens: 1, image_input_tokens: 1, image_output_tokens: 1 };
    assert_eq!(
        calculate_cost("dall-e-3", usage),
        Err(PricingError::UnsupportedModel("dall-e-3".to_string()))
    );
    assert_eq!(
        estimate_output_cost("gpt-image-1", "1024x1024", "low"),
        Err(PricingError::UnsupportedModel("gpt-image-1".to_string()))
    );
}

#[test]
fn published_output_prices() {
    let table = [
        ("low", "1024x1024", 6_000),
        ("low", "1024x1536", 5_000),
        ("low", "1536x1024", 5_000),
        ("medium", "1024x1024", 53_000),
        ("medium", "1024x1536", 41_000),
        ("medium", "1536x1024", 41_000),
        ("high", "1024x1024", 211_000),
        ("high", "1024x1536", 165_000),
        ("high", "1536x1024", 165_000),
    ];
    for (quality, size, micros) in table {
        assert_eq!(estimate_output_cost("gpt-image-2", size, quality), Ok(Usd { micros }));
    }
    assert_eq!(
        estimate_output_cost("gpt-image-2", "512x512", "high"),
        Err(PricingError::UnsupportedOutput { size: "512x512".into(), quality: "high".into() })
    );
    assert_eq!(
        estimate_output_cost("gpt-image-2", "1024x1024", "auto"),
        Err(PricingError::UnsupportedOutput { size: "1024x1024".into(), quality: "auto".into() })
    );
}

#[test]
fn amounts_are_written_with_six_decimals() {
    assert_eq!(Usd { micros: 0 }.to_text(), "0.000000");
    assert_eq!(Usd { micros: 165_000 }.to_text(), "0.165000");
    assert_eq!(Usd { micros: 12_345_678 }.to_text(), "12.345678");
    assert_eq!(Usd { micros: 1_000_001 }.to_text(), "1.000001");
    for micros in [1u128, 999, 5_000, 211_000, 170_000, 3_000_000_000] {
        assert_eq!(Usd { micros }.to_text(), format!("{:.6}", micros as f64 / 1_000_000.0));
    }
}

#[test]
fn cost_report_prefers_measured_usage() {
    let usage = TokenUsage { text_input_tokens: 2, image_input_tokens: 0, image_output_tokens: 3 };
    match cost_report("gpt-image-2", "1024x1536", "high", Some(usage)) {
        CostReport::Measured { usage: u, cost } => {
            assert_eq!(u, usage);
            assert_eq!(cost.total_usd().micros, 100);
        }
        other => panic!("unexpected report {other:?}"),
    }
    match cost_report("gpt-image-2", "1024x1536", "high", None) {
        CostReport::OutputEstimate(cost) => assert_eq!(cost.micros, 165_000),
        other => panic!("unexpected report {other:?}"),
    }
    match cost_report("other", "1024x1536", "high", Some(usage)) {
        CostReport::Unavailable(error) => {
            assert_eq!(error.message(), "没有为模型 other 配置计价规则")
        }
        other => panic!("unexpected report {other:?}"),
    }
    match cost_report("gpt-image-2", "1x1", "low", None) {
        CostReport::Unavailable(error) => assert_eq!(
            error.message(),
            "没有公开的 gpt-image-2 输出估价: size=1x1, quality=low"
        ),
        other => panic!("unexpected report {other:?}"),
    }
}
