//! The parser's behaviour on whole documents: one test per documented
//! scenario.

use notnative::parser::InlinePropertyParser;
use notnative::value::PropertyValue;

#[test]
fn test_parse_text() {
    let content = "Esto es [titulo::Mi Libro] de texto.";
    let props = InlinePropertyParser::parse(content);

    assert_eq!(props.len(), 1);
    assert_eq!(props[0].key, "titulo");
    assert!(matches!(&props[0].value, PropertyValue::Text(s) if s == "Mi Libro"));
}

#[test]
fn test_parse_number() {
    let content = "El precio es [precio::99.99] euros.";
    let props = InlinePropertyParser::parse(content);

    assert_eq!(props.len(), 1);
    assert_eq!(props[0].key, "precio");
    assert!(
        matches!(&props[0].value, PropertyValue::Number(n) if (n.parse::<f64>().unwrap() - 99.99).abs() < 0.001)
    );
}

#[test]
fn test_parse_boolean() {
    let content = "Estado: [completado::true] y [pendiente::false]";
    let props = InlinePropertyParser::parse(content);

    assert_eq!(props.len(), 2);
    assert!(matches!(&props[0].value, PropertyValue::Checkbox(true)));
    assert!(matches!(&props[1].value, PropertyValue::Checkbox(false)));
}

#[test]
fn test_parse_date() {
    let content = "Fecha: [fecha::2025-11-29]";
    let props = InlinePropertyParser::parse(content);

    assert_eq!(props.len(), 1);
    assert!(matches!(&props[0].value, PropertyValue::Date(d) if d == "2025-11-29"));
}

#[test]
fn test_parse_link() {
    let content = "Autor: [autor::@Cervantes]";
    let props = InlinePropertyParser::parse(content);

    assert_eq!(props.len(), 1);
    assert!(matches!(&props[0].value, PropertyValue::Link(n) if n == "Cervantes"));
    assert_eq!(props[0].linked_note, Some("Cervantes".to_string()));
}

#[test]
fn test_parse_list() {
    // List syntax: comma-separated values
    let content = "Items: [items::uno, dos, tres]";
    let props = InlinePropertyParser::parse(content);

    assert_eq!(props.len(), 1);
    assert!(matches!(&props[0].value, PropertyValue::List(items) if items.len() == 3));
}

#[test]
fn test_parse_multiple() {
    let content = r#"
# Mi Libro

[tipo::libro]
[titulo::Don Quijote]
[autor::@Cervantes]
[año::1605]
[paginas::863]
[leido::true]

Este es un gran libro.
"#;
    let props = InlinePropertyParser::parse(content);

    assert_eq!(props.len(), 6);
}

#[test]
fn test_line_numbers() {
    let content = "Linea 1\n[campo::valor]\nLinea 3";
    let props = InlinePropertyParser::parse(content);

    assert_eq!(props.len(), 1);
    assert_eq!(props[0].line_number, 2);
}

#[test]
fn test_replace_property() {
    let content = "El [precio::100] es bajo.";
    let props = InlinePropertyParser::parse(content);
    let new_content = InlinePropertyParser::replace_property(content, &props[0], "200");

    assert_eq!(new_content, "El [precio::200] es bajo.");
}

#[test]
fn test_grouped_properties() {
    // Grouped properties: [autor::Cervantes, libro::Quijote, año::1605]
    let content = "Referencia: [autor::Cervantes, libro::Quijote, año::1605]";
    let props = InlinePropertyParser::parse(content);

    assert_eq!(props.len(), 3);

    // all share the same group id
    assert!(props[0].group_id.is_some());
    assert_eq!(props[0].group_id, props[1].group_id);
    assert_eq!(props[1].group_id, props[2].group_id);

    // keys
    assert_eq!(props[0].key, "autor");
    assert_eq!(props[1].key, "libro");
    assert_eq!(props[2].key, "año");

    // values
    assert!(matches!(&props[0].value, PropertyValue::Text(s) if s == "Cervantes"));
    assert!(matches!(&props[1].value, PropertyValue::Text(s) if s == "Quijote"));
    assert!(
        matches!(&props[2].value, PropertyValue::Number(n) if n.parse::<f64>().unwrap() == 1605.0)
    );
}

#[test]
fn test_grouped_with_links() {
    // A group holding a note link
    let content = "[tipo::libro, autor::@Cervantes, titulo::Quijote]";
    let props = InlinePropertyParser::parse(content);

    assert_eq!(props.len(), 3);
    assert!(props[0].group_id.is_some());

    // the second one is a link
    assert!(matches!(&props[1].value, PropertyValue::Link(n) if n == "Cervantes"));
    assert_eq!(props[1].linked_note, Some("Cervantes".to_string()));
}

#[test]
fn test_escaped_comma() {
    // A comma escaped with \,
    let content = "[titulo::Cien años de soledad\\, novela]";
    let props = InlinePropertyParser::parse(content);

    assert_eq!(props.len(), 1);
    assert_eq!(props[0].group_id, None); // one property, not a group
    assert!(
        matches!(&props[0].value, PropertyValue::Text(s) if s == "Cien años de soledad, novela")
    );
}

#[test]
fn test_individual_has_no_group() {
    // standalone properties carry no group id
    let content = "[autor::Cervantes] escribió [libro::Quijote]";
    let props = InlinePropertyParser::parse(content);

    assert_eq!(props.len(), 2);
    assert_eq!(props[0].group_id, None);
    assert_eq!(props[1].group_id, None);
}

#[test]
fn test_multiple_groups() {
    // several groups in one document
    let content = r#"
[autor::Cervantes, libro::Quijote]
[autor::Borges, libro::Ficciones]
"#;
    let props = InlinePropertyParser::parse(content);

    assert_eq!(props.len(), 4);

    // first group
    assert_eq!(props[0].group_id, Some(1));
    assert_eq!(props[1].group_id, Some(1));

    // second group
    assert_eq!(props[2].group_id, Some(2));
    assert_eq!(props[3].group_id, Some(2));

    // distinct groups
    assert_ne!(props[0].group_id, props[2].group_id);
}
