use tokenguard::prices::{normalize_model_name, ModelPrice, PriceTable};

#[test]
fn lookup_exact_match() {
    let p = PriceTable::builtin().lookup("gpt-4o").unwrap();
    assert_eq!(p.input_per_1k, 2_500_000);
}

#[test]
fn lookup_prefix_match() {
    let p = PriceTable::builtin().lookup("gpt-4o-2024-08-06").unwrap();
    assert_eq!(p.input_per_1k, 2_500_000);
}

#[test]
fn lookup_case_insensitive() {
    let p = PriceTable::builtin().lookup("DeepSeek-Chat").unwrap();
    assert_eq!(p.input_per_1k, 270_000);
}

#[test]
fn lookup_unknown_returns_none() {
    assert!(PriceTable::builtin().lookup("totally-unknown-model").is_none());
}

#[test]
fn exact_match_beats_an_earlier_prefix() {
    let p = PriceTable::builtin().lookup("gpt-4o-mini").unwrap();
    assert_eq!(p.input_per_1k, 150_000);
}

#[test]
fn names_are_normalized_before_lookup() {
    assert_eq!(normalize_model_name("Gemini 1.5 Pro"), "gemini-1.5-pro");
    let table = PriceTable::from_entries(vec![(
        "my-model".to_string(),
        ModelPrice { input_per_1k: 1, output_per_1k: 2, cached_input_per_1k: None },
    )]);
    assert_eq!(table.lookup("My Model").unwrap().output_per_1k, 2);
    assert_eq!(table.len(), 1);
}
