use arachne::pipeline::normalize::{normalize_name, normalize_phone, slug_to_display};

#[test]
fn test_normalize_phone_11_digits() {
    assert_eq!(normalize_phone("(11) 99999-1234"), "+5511999991234");
}

#[test]
fn test_normalize_phone_with_country() {
    assert_eq!(normalize_phone("+55 11 99999-1234"), "+5511999991234");
}

#[test]
fn test_normalize_phone_landline() {
    assert_eq!(normalize_phone("1134567890"), "+551134567890");
}

#[test]
fn test_normalize_phone_empty() {
    assert_eq!(normalize_phone(""), "");
    assert_eq!(normalize_phone("no phone"), "");
}

#[test]
fn test_normalize_name() {
    assert_eq!(normalize_name("  maria   silva  "), "Maria Silva");
    assert_eq!(normalize_name("ANA SANTOS"), "Ana Santos");
}

#[test]
fn test_slug_to_display() {
    assert_eq!(slug_to_display("sao-paulo"), "Sao Paulo");
    assert_eq!(slug_to_display("rio-de-janeiro"), "Rio de Janeiro");
}

#[test]
fn normalize_phone_other_lengths_get_plus_only() {
    // 12 digits starting with 55: already has the country code.
    assert_eq!(normalize_phone("55 11 3456-7890"), "+551134567890");
    // 13 digits not starting with 55.
    assert_eq!(normalize_phone("1-212-555-0100-99"), "+1212555010099");
    // A short number.
    assert_eq!(normalize_phone("190"), "+190");
}

#[test]
fn normalize_phone_is_idempotent_on_examples() {
    for raw in ["(11) 99999-1234", "1134567890", "+1 415 555 0100", "190", "", "tel: 55 21 98888-7777"] {
        let once = normalize_phone(raw);
        assert_eq!(normalize_phone(&once), once);
    }
}

#[test]
fn normalize_phone_ignores_non_ascii_digits() {
    // Arabic-indic digits are not ASCII digits.
    assert_eq!(normalize_phone("١٢٣"), "");
}

#[test]
fn normalize_name_collapses_all_unicode_whitespace() {
    assert_eq!(normalize_name("\u{00a0}joão\u{2003}\tDA  silva\n"), "João Da Silva");
    assert_eq!(normalize_name("   "), "");
}

#[test]
fn normalize_name_uses_full_case_mapping() {
    // 'ß' uppercases to "SS".
    assert_eq!(normalize_name("ßtraße"), "SStraße");
}

#[test]
fn slug_to_display_keeps_prepositions_and_empty_pieces() {
    assert_eq!(slug_to_display("sao-jose-dos-campos"), "Sao Jose dos Campos");
    assert_eq!(slug_to_display("e-de-da-do-das-dos"), "e de da do das dos");
    assert_eq!(slug_to_display("a--b"), "A  B");
    assert_eq!(slug_to_display(""), "");
    assert_eq!(slug_to_display("rIO"), "RIO");
}

#[test]
fn slug_display_maps_back_to_the_slug() {
    for slug in ["sao-paulo", "rio-de-janeiro", "belo-horizonte", "a--b", "-x-", "", "zona-2-e-3", "dos"] {
        let shown = slug_to_display(slug);
        assert_eq!(shown.to_ascii_lowercase().replace(' ', "-"), slug);
    }
}

#[test]
fn normalize_name_is_idempotent_on_ascii() {
    for raw in ["  maria   DA silva ", "JOÃO", "o'neil mcDONALD", "", "a\tb\nc"] {
        let once = normalize_name(raw);
        if raw.is_ascii() {
            assert_eq!(normalize_name(&once), once);
        }
    }
}
