//! Tests for the provider temperature scaler. Temperatures are
//! fixed-point: 1_000_000 micro-units per unit, so 700_000 stands
//! for 0.7.

use temp_scale::scaler::{LLMProvider, TemperatureRange, TemperatureScaler};
use temp_scale::scaling::Range;

#[test]
fn test_default_provider_temperatures() {
    let scaler = TemperatureScaler::new(700_000); // normalized 0.7
    assert_eq!(scaler.for_provider(LLMProvider::OpenAI), 1_400_000); // 1.40
    assert_eq!(scaler.for_provider(LLMProvider::Anthropic), 700_000); // 0.70
    assert_eq!(scaler.for_provider(LLMProvider::Gemini), 840_000); // 0.84
    assert_eq!(scaler.for_provider(LLMProvider::Mistral), 700_000); // 0.70
}

#[test]
fn test_base_clamped_high_on_construction() {
    let scaler = TemperatureScaler::new(1_500_000); // 1.5, out of [0, 1]
    assert_eq!(scaler.base_normalized_temperature, 1_000_000);
    assert_eq!(scaler.for_provider(LLMProvider::OpenAI), 2_000_000);
}

#[test]
fn test_base_clamped_low_on_construction() {
    let scaler = TemperatureScaler::new(-300_000);
    assert_eq!(scaler.base_normalized_temperature, 0);
    assert_eq!(scaler.for_provider(LLMProvider::OpenAI), 0);
    assert_eq!(scaler.for_provider(LLMProvider::Gemini), 0);
}

#[test]
fn test_custom_provider_range() {
    let mut scaler = TemperatureScaler::new(500_000); // 0.5
    scaler.set_range(LLMProvider::Custom("foo".to_string()), 10_000_000, 20_000_000);
    assert_eq!(scaler.for_provider(LLMProvider::Custom("foo".to_string())), 15_000_000);
    // an unset custom provider falls back to the [0, 1] default
    assert_eq!(scaler.for_provider(LLMProvider::Custom("bar".to_string())), 500_000);
}

#[test]
fn test_overwrite_fixed_provider_range() {
    let mut scaler = TemperatureScaler::new(700_000);
    assert_eq!(scaler.for_provider(LLMProvider::OpenAI), 1_400_000);
    scaler.set_range(LLMProvider::OpenAI, 0, 1_000_000);
    assert_eq!(scaler.for_provider(LLMProvider::OpenAI), 700_000);
    // the other defaults are untouched
    assert_eq!(scaler.for_provider(LLMProvider::Gemini), 840_000);
}

#[test]
fn test_inverted_range_respected() {
    // an inverted range makes the result decrease as the base increases
    let mut low = TemperatureScaler::new(250_000);
    low.set_range(LLMProvider::Mistral, 1_000_000, 0);
    let mut high = TemperatureScaler::new(750_000);
    high.set_range(LLMProvider::Mistral, 1_000_000, 0);
    assert_eq!(low.for_provider(LLMProvider::Mistral), 750_000);
    assert_eq!(high.for_provider(LLMProvider::Mistral), 250_000);
}

#[test]
fn test_repeated_queries_identical() {
    let scaler = TemperatureScaler::new(700_000);
    let first = scaler.for_provider(LLMProvider::Gemini);
    let second = scaler.for_provider(LLMProvider::Gemini);
    assert_eq!(first, second);
    assert_eq!(first, 840_000);
}

#[test]
fn test_base_endpoints() {
    let zero = TemperatureScaler::new(0);
    let one = TemperatureScaler::new(1_000_000);
    assert_eq!(zero.for_provider(LLMProvider::Gemini), 0);
    assert_eq!(one.for_provider(LLMProvider::Gemini), 1_200_000);
}

#[test]
fn test_remap_matches_general_mapper() {
    let range = TemperatureRange { min: 0, max: 2_000_000 };
    let base = Range { min: 0, max: 1_000_000 };
    let target = Range { min: 0, max: 2_000_000 };
    assert_eq!(range.remap(700_000), base.map_to(target, 700_000));
    assert_eq!(range.remap(-5), base.map_to(target, -5));
    assert_eq!(range.remap(2_000_000), base.map_to(target, 2_000_000));
}

#[test]
fn test_remap_clamps_normalized_value() {
    let range = TemperatureRange { min: 1_000_000, max: 3_000_000 };
    assert_eq!(range.remap(-700_000), 1_000_000);
    assert_eq!(range.remap(1_700_000), 3_000_000);
    assert_eq!(range.remap(500_000), 2_000_000);
}

#[test]
fn test_custom_providers_distinguished_by_label() {
    let mut scaler = TemperatureScaler::new(500_000);
    scaler.set_range(LLMProvider::Custom("alpha".to_string()), 0, 2_000_000);
    scaler.set_range(LLMProvider::Custom("beta".to_string()), 0, 4_000_000);
    assert_eq!(scaler.for_provider(LLMProvider::Custom("alpha".to_string())), 1_000_000);
    assert_eq!(scaler.for_provider(LLMProvider::Custom("beta".to_string())), 2_000_000);
    // overwriting one label leaves the other alone
    scaler.set_range(LLMProvider::Custom("alpha".to_string()), 0, 6_000_000);
    assert_eq!(scaler.for_provider(LLMProvider::Custom("alpha".to_string())), 3_000_000);
    assert_eq!(scaler.for_provider(LLMProvider::Custom("beta".to_string())), 2_000_000);
}

#[test]
fn test_provider_equality() {
    assert!(LLMProvider::Custom("foo".to_string()) == LLMProvider::Custom("foo".to_string()));
    assert!(LLMProvider::Custom("foo".to_string()) != LLMProvider::Custom("bar".to_string()));
    assert!(LLMProvider::OpenAI == LLMProvider::OpenAI);
    assert!(LLMProvider::OpenAI != LLMProvider::Custom("OpenAI".to_string()));
}
