//! Edge cases of the value cascade, positions, mutation helpers and the
//! translation table.

use notnative::i18n::{I18n, Language};
use notnative::parser::InlinePropertyParser;
use notnative::value::PropertyValue;

#[test]
fn offsets_are_byte_offsets() {
    // "ñ" is two bytes, so the span starts at byte 3
    let content = "ñ [k::v]";
    let props = InlinePropertyParser::parse(content);

    assert_eq!(props.len(), 1);
    assert_eq!(props[0].char_start, 3);
    assert_eq!(props[0].char_end, 9);
    assert_eq!(&content[props[0].char_start..props[0].char_end], "[k::v]");
    assert!(props[0].char_end <= content.len());
}

#[test]
fn offsets_cover_the_whole_span() {
    let content = "Esto es [titulo::Mi Libro] de texto.";
    let props = InlinePropertyParser::parse(content);

    assert_eq!(props.len(), 1);
    assert!(props[0].char_start < props[0].char_end);
    assert!(props[0].char_end <= content.len());
    assert_eq!(
        &content[props[0].char_start..props[0].char_end],
        "[titulo::Mi Libro]"
    );
}

#[test]
fn hidden_property_uses_triple_colon() {
    let content = "x [clave:::secreto] y";
    let props = InlinePropertyParser::parse(content);

    assert_eq!(props.len(), 1);
    assert!(props[0].hidden);
    assert_eq!(props[0].key, "clave");
    assert_eq!(props[0].raw_value, "secreto");
    assert_eq!(props[0].full_text(), "[clave:::secreto]");
}

#[test]
fn visible_property_full_text() {
    let content = "[a::b]";
    let props = InlinePropertyParser::parse(content);

    assert_eq!(props.len(), 1);
    assert!(!props[0].hidden);
    assert_eq!(props[0].full_text(), "[a::b]");
}

#[test]
fn datetime_value() {
    let content = "[cuando::2025-11-29T10:30:00]";
    let props = InlinePropertyParser::parse(content);

    assert_eq!(props.len(), 1);
    assert!(matches!(&props[0].value, PropertyValue::DateTime(d) if d == "2025-11-29T10:30:00"));
}

#[test]
fn date_is_not_range_checked() {
    let content = "[fecha::2025-13-40]";
    let props = InlinePropertyParser::parse(content);

    assert_eq!(props.len(), 1);
    assert!(matches!(&props[0].value, PropertyValue::Date(d) if d == "2025-13-40"));
}

#[test]
fn tags_with_commas() {
    let content = "[tags::#rust, #verus]";
    let props = InlinePropertyParser::parse(content);

    assert_eq!(props.len(), 1);
    assert!(
        matches!(&props[0].value, PropertyValue::Tags(t) if t.len() == 2 && t[0] == "rust" && t[1] == "verus")
    );
}

#[test]
fn tags_inline_shorthand() {
    let content = "[tags::#uno #dos]";
    let props = InlinePropertyParser::parse(content);

    assert_eq!(props.len(), 1);
    assert!(
        matches!(&props[0].value, PropertyValue::Tags(t) if t.len() == 2 && t[0] == "uno" && t[1] == "dos")
    );
}

#[test]
fn leading_at_sign_outranks_link_lists() {
    // rule one of the cascade: a value opening with `@` is one relation,
    // commas and all
    let content = "[refs::@Uno, @Dos]";
    let props = InlinePropertyParser::parse(content);

    assert_eq!(props.len(), 1);
    assert!(matches!(&props[0].value, PropertyValue::Link(n) if n == "Uno, @Dos"));
    assert_eq!(props[0].linked_note, Some("Uno, @Dos".to_string()));
}

#[test]
fn links_list() {
    // the multi-link rule fires when the value itself does not open
    // with `@` but every comma item does
    let content = "[refs::, @Uno, @Dos]";
    let props = InlinePropertyParser::parse(content);

    assert_eq!(props.len(), 1);
    assert!(
        matches!(&props[0].value, PropertyValue::Links(l) if l.len() == 2 && l[0] == "Uno" && l[1] == "Dos")
    );
    // a multi-link value names no single linked note
    assert_eq!(props[0].linked_note, None);
}

#[test]
fn comma_grouped_numeral_is_a_list() {
    // the documented trade-off: a comma keeps a value from being a number
    let content = "[n::1,234]";
    let props = InlinePropertyParser::parse(content);

    assert_eq!(props.len(), 1);
    assert!(
        matches!(&props[0].value, PropertyValue::List(l) if l.len() == 2 && l[0] == "1" && l[1] == "234")
    );
}

#[test]
fn special_float_words_are_numbers() {
    let props = InlinePropertyParser::parse("[x::inf] [y::NaN] [z::+2.5e-3]");

    assert_eq!(props.len(), 3);
    assert!(matches!(&props[0].value, PropertyValue::Number(n) if n == "inf"));
    assert!(matches!(&props[1].value, PropertyValue::Number(n) if n == "NaN"));
    assert!(matches!(&props[2].value, PropertyValue::Number(n) if n == "+2.5e-3"));
}

#[test]
fn number_rule_agrees_with_float_parsing() {
    // the engine's number rule accepts exactly the literals that
    // `str::parse::<f64>` accepts
    let candidates = [
        "1", "1.", ".5", "1.e5", "5e", "e5", ".", "..", "1.2.3", "+5", "-", "+", "1e+07",
        "2.5E-3", "inf", "Infinity", "nan", "NAN", "-inf", "+infinity", "0x10", "1_000", "10e",
        "1e+", "infi", "nancy", "½", "2025-11-29", "1.0e-999", "9e999",
    ];
    for v in candidates {
        let content = format!("[x::{}]", v);
        let props = notnative::parser::InlinePropertyParser::parse(&content);
        assert_eq!(props.len(), 1);
        let engine_says_number = matches!(&props[0].value, PropertyValue::Number(_));
        assert_eq!(
            engine_says_number,
            v.parse::<f64>().is_ok(),
            "disagreement on {:?}",
            v
        );
    }
}

#[test]
fn boolean_is_case_insensitive() {
    let props = InlinePropertyParser::parse("[done::TRUE] [open::False]");

    assert_eq!(props.len(), 2);
    assert!(matches!(&props[0].value, PropertyValue::Checkbox(true)));
    assert!(matches!(&props[1].value, PropertyValue::Checkbox(false)));
}

#[test]
fn empty_value_is_text() {
    let props = InlinePropertyParser::parse("[k::]");

    assert_eq!(props.len(), 1);
    assert!(matches!(&props[0].value, PropertyValue::Text(s) if s.is_empty()));
}

#[test]
fn spans_without_pairs_are_ignored() {
    let props = InlinePropertyParser::parse("Ver [esto] y [] tambien [eso::1]");

    assert_eq!(props.len(), 1);
    assert_eq!(props[0].key, "eso");
}

#[test]
fn escaped_comma_inside_list_item() {
    let content = "[l::a\\, b, c]";
    let props = InlinePropertyParser::parse(content);

    assert_eq!(props.len(), 1);
    assert!(
        matches!(&props[0].value, PropertyValue::List(l) if l.len() == 2 && l[0] == "a, b" && l[1] == "c")
    );
}

#[test]
fn text_between_comma_and_next_key_is_dropped() {
    // "xx" belongs to neither value
    let content = "[a::1, xx b::2]";
    let props = InlinePropertyParser::parse(content);

    assert_eq!(props.len(), 2);
    assert!(matches!(&props[0].value, PropertyValue::Number(n) if n == "1"));
    assert!(matches!(&props[1].value, PropertyValue::Number(n) if n == "2"));
}

#[test]
fn spaces_around_separator_are_allowed() {
    let props = InlinePropertyParser::parse("[autor :: Cervantes]");

    assert_eq!(props.len(), 1);
    assert_eq!(props[0].key, "autor");
    assert!(matches!(&props[0].value, PropertyValue::Text(s) if s == "Cervantes"));
}

#[test]
fn replace_then_parse_round_trip() {
    let content = "El [precio::100] es bajo.";
    let props = InlinePropertyParser::parse(content);
    let replaced = InlinePropertyParser::replace_property(content, &props[0], "200");
    let again = InlinePropertyParser::parse(&replaced);

    assert_eq!(again.len(), 1);
    assert_eq!(again[0].key, "precio");
    assert_eq!(again[0].raw_value, "200");
    assert!(matches!(&again[0].value, PropertyValue::Number(n) if n == "200"));
}

#[test]
fn replace_after_multibyte_text() {
    let content = "año: [n::1] fin";
    let props = InlinePropertyParser::parse(content);
    let replaced = InlinePropertyParser::replace_property(content, &props[0], "2");

    assert_eq!(replaced, "año: [n::2] fin");
}

#[test]
fn insert_property_appends_to_line() {
    let out = InlinePropertyParser::insert_property("uno\ndos\ntres", 2, "k", "v");

    assert_eq!(out, "uno\ndos [k::v]\ntres");
}

#[test]
fn insert_property_on_last_line() {
    let out = InlinePropertyParser::insert_property("uno\ndos", 2, "k", "v");

    assert_eq!(out, "uno\ndos [k::v]");
}

#[test]
fn insert_property_beyond_document_is_a_no_op() {
    let out = InlinePropertyParser::insert_property("a\nb", 5, "k", "v");

    assert_eq!(out, "a\nb");
}

#[test]
fn insert_property_keeps_crlf_endings() {
    let out = InlinePropertyParser::insert_property("a\r\nb", 1, "k", "v");

    assert_eq!(out, "a [k::v]\r\nb");
}

#[test]
fn insert_property_keeps_trailing_newline() {
    let out = InlinePropertyParser::insert_property("a\n", 1, "k", "v");

    assert_eq!(out, "a [k::v]\n");
}

#[test]
fn keys_may_hold_numbers_and_underscores() {
    let props = InlinePropertyParser::parse("[nivel_2::alto] [año2::1616]");

    assert_eq!(props.len(), 2);
    assert_eq!(props[0].key, "nivel_2");
    assert_eq!(props[1].key, "año2");
}

#[test]
fn every_span_lies_inside_the_document() {
    let content = "x [a::1]\n[b::dos, c::#t1,#t2] ñ [d:::@Nota]\ny [malformado] [e::2025-01-02]";
    let props = InlinePropertyParser::parse(content);

    assert_eq!(props.len(), 5);
    for p in &props {
        assert!(p.char_start < p.char_end);
        assert!(p.char_end <= content.len());
        assert!(p.line_number >= 1);
        assert!(!p.key.is_empty());
    }
}

#[test]
fn group_ids_rise_even_after_standalone_spans() {
    let content = "[solo::1] [a::1, b::2] [otra::x] [c::3, d::4]";
    let props = InlinePropertyParser::parse(content);

    assert_eq!(props.len(), 6);
    assert_eq!(props[0].group_id, None);
    assert_eq!(props[1].group_id, Some(1));
    assert_eq!(props[2].group_id, Some(1));
    assert_eq!(props[3].group_id, None);
    assert_eq!(props[4].group_id, Some(2));
    assert_eq!(props[5].group_id, Some(2));
}

#[test]
fn language_from_code() {
    assert_eq!(Language::from_code("en"), Language::English);
    assert_eq!(Language::from_code("en_US"), Language::English);
    assert_eq!(Language::from_code("es_MX"), Language::Spanish);
    assert_eq!(Language::from_code("fr"), Language::Spanish);
    assert_eq!(Language::from_code(""), Language::Spanish);
}

#[test]
fn language_code_and_name() {
    assert_eq!(Language::Spanish.code(), "es");
    assert_eq!(Language::English.code(), "en");
    assert_eq!(Language::Spanish.name(), "Español");
    assert_eq!(Language::English.name(), "English");
}

#[test]
fn i18n_translates_known_keys() {
    let mut i18n = I18n::new(Language::Spanish);
    assert_eq!(i18n.t("notes"), "Notas");
    assert_eq!(i18n.current_language(), Language::Spanish);

    i18n.set_language(Language::English);
    assert_eq!(i18n.t("notes"), "Notes");
    assert_eq!(i18n.current_language(), Language::English);
}

#[test]
fn i18n_returns_unknown_keys_verbatim() {
    let i18n = I18n::new(Language::Spanish);
    assert_eq!(i18n.t("no_such_key_anywhere"), "no_such_key_anywhere");
    assert!(i18n.all_translations("no_such_key_anywhere").is_none());
}

#[test]
fn i18n_all_translations() {
    let i18n = I18n::new(Language::English);
    let both = i18n.all_translations("cancel");
    assert_eq!(both, Some(("Cancelar".to_string(), "Cancel".to_string())));
}
