//! Cost of a `gpt-image-2` generation.
//!
//! Amounts are exact: they are counted in micro-dollars (millionths of a
//! US dollar). A price of `p` dollars per million tokens is `p`
//! micro-dollars per token.
use vstd::prelude::*;

use crate::text::{decimal, push_decimal, str_eq};

verus! {

/// Price of one text input token, in micro-dollars ($5.00 per million tokens).
pub const MICRO_USD_PER_TEXT_INPUT_TOKEN: u128 = 5;

/// Price of one image input token, in micro-dollars ($8.00 per million tokens).
pub const MICRO_USD_PER_IMAGE_INPUT_TOKEN: u128 = 8;

/// Price of one image output token, in micro-dollars ($30.00 per million tokens).
pub const MICRO_USD_PER_IMAGE_OUTPUT_TOKEN: u128 = 30;

/// Micro-dollars in one dollar.
pub const MICRO_USD_PER_USD: u128 = 1_000_000;

/// Tokens used by one generation.
#[derive(Debug, Clone, Copy, PartialEq, Eq, Structural)]
pub struct TokenUsage {
    pub text_input_tokens: u64,
    pub image_input_tokens: u64,
    pub image_output_tokens: u64,
}

/// An amount of US dollars, in micro-dollars.
#[derive(Debug, Clone, Copy, PartialEq, Eq, Structural)]
pub struct Usd {
    pub micros: u128,
}

/// Cost of a generation by kind of token.
#[derive(Debug, Clone, Copy, PartialEq, Eq, Structural)]
pub struct CostBreakdown {
    pub text_input_usd: Usd,
    pub image_input_usd: Usd,
    pub image_output_usd: Usd,
}

/// Why no price can be given.
#[derive(Debug, PartialEq, Eq)]
pub enum PricingError {
    /// The model has no pricing data.
    UnsupportedModel(String),
    /// No published per-image price exists for this size and quality.
    UnsupportedOutput { size: String, quality: String },
}

/// What the cost printout of a generation shows.
#[derive(Debug)]
pub enum CostReport {
    /// The cost computed from the token usage the API returned.
    Measured { usage: TokenUsage, cost: CostBreakdown },
    /// The published price of one output image, used when the API returned
    /// no usage; it leaves out the cost of the prompt.
    OutputEstimate(Usd),
    /// No cost could be given.
    Unavailable(PricingError),
}

/// The models priced here: `gpt-image-2` and its snapshot `gpt-image-2-2026-04-21`.
pub open spec fn is_priced_model(model: Seq<char>) -> bool {
    model == "gpt-image-2"@ || model == "gpt-image-2-2026-04-21"@
}

/// Published price of one output image, in micro-dollars.
pub open spec fn published_output_price(quality: Seq<char>, size: Seq<char>) -> Option<nat> {
    let square = size == "1024x1024"@;
    let oblong = size == "1024x1536"@ || size == "1536x1024"@;
    if quality == "low"@ {
        if square {
            Some(6_000)
        } else if oblong {
            Some(5_000)
        } else {
            None
        }
    } else if quality == "medium"@ {
        if square {
            Some(53_000)
        } else if oblong {
            Some(41_000)
        } else {
            None
        }
    } else if quality == "high"@ {
        if square {
            Some(211_000)
        } else if oblong {
            Some(165_000)
        } else {
            None
        }
    } else {
        None
    }
}

/// The cost of `usage`.
pub open spec fn usage_cost(usage: TokenUsage) -> CostBreakdown {
    CostBreakdown {
        text_input_usd: Usd {
            micros: (usage.text_input_tokens * MICRO_USD_PER_TEXT_INPUT_TOKEN) as u128,
        },
        image_input_usd: Usd {
            micros: (usage.image_input_tokens * MICRO_USD_PER_IMAGE_INPUT_TOKEN) as u128,
        },
        image_output_usd: Usd {
            micros: (usage.image_output_tokens * MICRO_USD_PER_IMAGE_OUTPUT_TOKEN) as u128,
        },
    }
}

/// Sum of the three parts of a breakdown.
pub open spec fn breakdown_total(cost: CostBreakdown) -> int {
    cost.text_input_usd.micros + cost.image_input_usd.micros + cost.image_output_usd.micros
}

impl CostBreakdown {
    /// The total cost.
    pub fn total_usd(self) -> (total: Usd)
        requires
            breakdown_total(self) <= u128::MAX,
        ensures
            total.micros == breakdown_total(self),
    {
        Usd {
            micros: self.text_input_usd.micros + self.image_input_usd.micros
                + self.image_output_usd.micros,
        }
    }
}

/// Cost of `tokens` tokens at `micros_per_token` micro-dollars each.
fn token_cost(tokens: u64, micros_per_token: u128) -> (cost: Usd)
    requires
        micros_per_token <= 30,
    ensures
        cost.micros == tokens * micros_per_token,
{
    assert(tokens * micros_per_token <= 0xffff_ffff_ffff_ffff * 30) by (nonlinear_arith)
        requires
            tokens <= 0xffff_ffff_ffff_ffff,
            micros_per_token <= 30,
    ;
    Usd { micros: tokens as u128 * micros_per_token }
}

/// Fails unless `model` is priced here.
pub fn ensure_supported_model(model: &str) -> (res: Result<(), PricingError>)
    ensures
        res is Ok <==> is_priced_model(model@),
        res matches Err(e) ==> e matches PricingError::UnsupportedModel(m) && m@ == model@,
{
    if str_eq(model, "gpt-image-2") || str_eq(model, "gpt-image-2-2026-04-21") {
        Ok(())
    } else {
        Err(PricingError::UnsupportedModel(model.to_owned()))
    }
}

/// Cost of a generation from the token usage the API returned.
pub fn calculate_cost(model: &str, usage: TokenUsage) -> (res: Result<CostBreakdown, PricingError>)
    ensures
        res is Ok <==> is_priced_model(model@),
        res matches Ok(cost) ==> cost == usage_cost(usage),
        res matches Err(e) ==> e matches PricingError::UnsupportedModel(m) && m@ == model@,
{
    ensure_supported_model(model)?;
    Ok(CostBreakdown {
        text_input_usd: token_cost(usage.text_input_tokens, MICRO_USD_PER_TEXT_INPUT_TOKEN),
        image_input_usd: token_cost(usage.image_input_tokens, MICRO_USD_PER_IMAGE_INPUT_TOKEN),
        image_output_usd: token_cost(usage.image_output_tokens, MICRO_USD_PER_IMAGE_OUTPUT_TOKEN),
    })
}

/// Published price of one output image of `size` and `quality`.
pub fn estimate_output_cost(model: &str, size: &str, quality: &str) -> (res: Result<
    Usd,
    PricingError,
>)
    ensures
        !is_priced_model(model@) ==> (res matches Err(e) && e matches PricingError::UnsupportedModel(
            m,
        ) && m@ == model@),
        is_priced_model(model@) ==> match published_output_price(quality@, size@) {
            Some(price) => res matches Ok(cost) && cost.micros == price,
            None => res matches Err(e) && e matches PricingError::UnsupportedOutput {
                size: s,
                quality: q,
            } && s@ == size@ && q@ == quality@,
        },
{
    ensure_supported_model(model)?;
    let square = str_eq(size, "1024x1024");
    let oblong = str_eq(size, "1024x1536") || str_eq(size, "1536x1024");
    let price: Option<u128> = if str_eq(quality, "low") {
        if square {
            Some(6_000)
        } else if oblong {
            Some(5_000)
        } else {
            None
        }
    } else if str_eq(quality, "medium") {
        if square {
            Some(53_000)
        } else if oblong {
            Some(41_000)
        } else {
            None
        }
    } else if str_eq(quality, "high") {
        if square {
            Some(211_000)
        } else if oblong {
            Some(165_000)
        } else {
            None
        }
    } else {
        None
    };
    match price {
        Some(micros) => Ok(Usd { micros }),
        None => Err(
            PricingError::UnsupportedOutput { size: size.to_owned(), quality: quality.to_owned() },
        ),
    }
}

/// What to report about the cost of a generation: the measured cost when
/// the API returned usage, the published per-image price otherwise.
pub fn cost_report(model: &str, size: &str, quality: &str, usage: Option<TokenUsage>) -> (report:
    CostReport)
    ensures
        match usage {
            Some(u) => if is_priced_model(model@) {
                report == CostReport::Measured { usage: u, cost: usage_cost(u) }
            } else {
                report matches CostReport::Unavailable(e) && e matches PricingError::UnsupportedModel(
                    m,
                ) && m@ == model@
            },
            None => if !is_priced_model(model@) {
                report matches CostReport::Unavailable(e) && e matches PricingError::UnsupportedModel(
                    m,
                ) && m@ == model@
            } else {
                match published_output_price(quality@, size@) {
                    Some(price) => report matches CostReport::OutputEstimate(cost) && cost.micros
                        == price,
                    None => report matches CostReport::Unavailable(e)
                        && e matches PricingError::UnsupportedOutput { size: s, quality: q }
                        && s@ == size@ && q@ == quality@,
                }
            },
        },
{
    match usage {
        Some(u) => match calculate_cost(model, u) {
            Ok(cost) => CostReport::Measured { usage: u, cost },
            Err(e) => CostReport::Unavailable(e),
        },
        None => match estimate_output_cost(model, size, quality) {
            Ok(cost) => CostReport::OutputEstimate(cost),
            Err(e) => CostReport::Unavailable(e),
        },
    }
}

/// `n` as exactly six decimal digits, zeros in front (`n < 1_000_000`).
pub open spec fn six_digits(n: nat) -> Seq<char>
    recommends
        n < 1_000_000,
{
    Seq::new((6 - decimal(n).len()) as nat, |i: int| '0') + decimal(n)
}

/// An amount written in dollars with six decimals, such as `0.001840`.
pub open spec fn usd_text(amount: Usd) -> Seq<char> {
    decimal((amount.micros / 1_000_000) as nat) + seq!['.'] + six_digits(
        (amount.micros % 1_000_000) as nat,
    )
}

proof fn lemma_decimal_len_below_million(n: nat)
    requires
        n < 1_000_000,
    ensures
        1 <= decimal(n).len() <= 6,
        n < 100_000 ==> decimal(n).len() <= 5,
        n < 10_000 ==> decimal(n).len() <= 4,
        n < 1_000 ==> decimal(n).len() <= 3,
        n < 100 ==> decimal(n).len() <= 2,
        n < 10 ==> decimal(n).len() == 1,
        n >= 10 ==> decimal(n).len() >= 2,
        n >= 100 ==> decimal(n).len() >= 3,
        n >= 1_000 ==> decimal(n).len() >= 4,
        n >= 10_000 ==> decimal(n).len() >= 5,
        n >= 100_000 ==> decimal(n).len() >= 6,
    decreases n,
{
    if n >= 10 {
        lemma_decimal_len_below_million(n / 10);
    }
}

impl Usd {
    /// The amount written in dollars with six decimals, such as `0.001840`
    /// (what `{:.6}` shows of the amount in dollars).
    pub fn to_text(&self) -> (text: String)
        ensures
            text@ == usd_text(*self),
    {
        let whole = self.micros / MICRO_USD_PER_USD;
        let fraction = self.micros % MICRO_USD_PER_USD;
        let mut text = String::new();
        push_decimal(&mut text, whole);
        proof {
            reveal_strlit(".");
            reveal_strlit("0");
        }
        text.append(".");
        let mut digits = String::new();
        push_decimal(&mut digits, fraction);
        proof {
            lemma_decimal_len_below_million(fraction as nat);
        }
        let digit_count = digits.as_str().unicode_len();
        let mut zeros = String::new();
        let mut k: usize = 0;
        while k + digit_count < 6
            invariant
                digit_count == decimal(fraction as nat).len(),
                1 <= digit_count <= 6,
                k + digit_count <= 6,
                zeros@ == Seq::new(k as nat, |i: int| '0'),
            decreases 6 - k - digit_count,
        {
            proof {
                reveal_strlit("0");
            }
            zeros.append("0");
            assert(zeros@ =~= Seq::new((k + 1) as nat, |i: int| '0'));
            k = k + 1;
        }
        text.append(zeros.as_str());
        text.append(digits.as_str());
        assert(text@ =~= usd_text(*self));
        text
    }
}

impl PricingError {
    /// The message shown for the error.
    pub fn message(&self) -> (text: String)
        ensures
            text@ == match self {
                PricingError::UnsupportedModel(model) => "没有为模型 "@ + model@ + " 配置计价规则"@,
                PricingError::UnsupportedOutput { size, quality } =>
                    "没有公开的 gpt-image-2 输出估价: size="@ + size@ + ", quality="@ + quality@,
            },
    {
        match self {
            PricingError::UnsupportedModel(model) => {
                let mut text = "没有为模型 ".to_owned();
                text.append(model.as_str());
                text.append(" 配置计价规则");
                text
            },
            PricingError::UnsupportedOutput { size, quality } => {
                let mut text = "没有公开的 gpt-image-2 输出估价: size=".to_owned();
                text.append(size.as_str());
                text.append(", quality=");
                text.append(quality.as_str());
                text
            },
        }
    }
}

/// Portrait and landscape images cost the same at every quality.
pub proof fn law_portrait_and_landscape_cost_the_same(quality: Seq<char>)
    ensures
        published_output_price(quality, "1024x1536"@) == published_output_price(
            quality,
            "1536x1024"@,
        ),
{
    reveal_strlit("1024x1024");
    reveal_strlit("1024x1536");
    reveal_strlit("1536x1024");
    assert("1024x1024"@[6] != "1024x1536"@[6]);
    assert("1024x1024"@[1] != "1536x1024"@[1]);
}

/// The total of a measured cost is the sum of the three per-token prices.
pub proof fn law_measured_total(usage: TokenUsage)
    ensures
        breakdown_total(usage_cost(usage)) == usage.text_input_tokens * 5 + usage.image_input_tokens
            * 8 + usage.image_output_tokens * 30,
        breakdown_total(usage_cost(usage)) <= u128::MAX,
{
    assert(usage.text_input_tokens * 5 <= 0xffff_ffff_ffff_ffff * 5) by (nonlinear_arith)
        requires
            usage.text_input_tokens <= 0xffff_ffff_ffff_ffff,
    ;
    assert(usage.image_input_tokens * 8 <= 0xffff_ffff_ffff_ffff * 8) by (nonlinear_arith)
        requires
            usage.image_input_tokens <= 0xffff_ffff_ffff_ffff,
    ;
    assert(usage.image_output_tokens * 30 <= 0xffff_ffff_ffff_ffff * 30) by (nonlinear_arith)
        requires
            usage.image_output_tokens <= 0xffff_ffff_ffff_ffff,
    ;
}

} // verus!
