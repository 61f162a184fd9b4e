use website_pictures_server::rows::{section_from_row, service_from_row, ColValue};
use website_pictures_server::errors::StoreError;
use website_pictures_server::sql::{
    create_section_statement, create_service_statement, replace_first, sections_statement,
    services_by_section_statement, setup_statement,
};

#[test]
fn create_section_statement_substitutes_the_field_list() {
    assert_eq!(
        create_section_statement(),
        "INSERT INTO ServiceSections (title, description) VALUES ($1, $2) \
         RETURNING id, title, description, created_at"
    );
}

#[test]
fn create_service_statement_substitutes_the_field_list() {
    assert_eq!(
        create_service_statement(),
        "INSERT INTO Services (section_id, name, description) VALUES ($1, $2, $3) \
         RETURNING id, section_id, name, description, created_at"
    );
}

#[test]
fn select_statements_substitute_the_field_list() {
    assert_eq!(
        sections_statement(),
        "SELECT id, title, description, created_at FROM ServiceSections ORDER BY id"
    );
    assert_eq!(
        services_by_section_statement(),
        "SELECT id, section_id, name, description, created_at FROM Services \
         WHERE section_id = $1 ORDER BY id"
    );
}

#[test]
fn setup_creates_both_tables_idempotently() {
    let s = setup_statement();
    assert!(s.starts_with("CREATE TABLE IF NOT EXISTS ServiceSections"));
    assert!(s.contains("CREATE TABLE IF NOT EXISTS Services"));
    assert!(s.contains("REFERENCES ServiceSections(id)"));
}

#[test]
fn replace_first_touches_only_the_first_occurrence() {
    assert_eq!(replace_first("a $f b $f", "$f", "X"), "a X b $f");
}

#[test]
fn replace_first_without_occurrence_returns_the_template() {
    assert_eq!(replace_first("abc", "zzz", "X"), "abc");
    assert_eq!(replace_first("", "z", "X"), "");
    assert_eq!(replace_first("short", "a longer pattern", "X"), "short");
}

#[test]
fn replace_first_with_empty_pattern_returns_the_template() {
    assert_eq!(replace_first("abc", "", "X"), "abc");
}

#[test]
fn section_row_decodes_positionally() {
    let row = vec![
        ColValue::Int(7),
        ColValue::Text("Weddings".to_string()),
        ColValue::Text("desc".to_string()),
        ColValue::Timestamp(99),
    ];
    let sec = section_from_row(&row).unwrap();
    assert_eq!(sec.id, 7);
    assert_eq!(sec.title, "Weddings");
    assert_eq!(sec.description, "desc");
    assert_eq!(sec.created_at, 99);
}

#[test]
fn service_row_decodes_positionally() {
    let row = vec![
        ColValue::Int(3),
        ColValue::Int(7),
        ColValue::Text("Ceremony".to_string()),
        ColValue::Text("desc".to_string()),
        ColValue::Timestamp(100),
    ];
    let svc = service_from_row(&row).unwrap();
    assert_eq!(svc.id, 3);
    assert_eq!(svc.section_id, 7);
    assert_eq!(svc.name, "Ceremony");
    assert_eq!(svc.created_at, 100);
}

#[test]
fn wrong_width_rows_fail_to_decode() {
    let row = vec![ColValue::Int(1)];
    assert_eq!(section_from_row(&row).unwrap_err(), StoreError::DecodeFailed);
    assert_eq!(service_from_row(&row).unwrap_err(), StoreError::DecodeFailed);
}

#[test]
fn wrong_column_kinds_fail_to_decode() {
    let row = vec![
        ColValue::Text("not an id".to_string()),
        ColValue::Text("Weddings".to_string()),
        ColValue::Text("desc".to_string()),
        ColValue::Timestamp(99),
    ];
    assert_eq!(section_from_row(&row).unwrap_err(), StoreError::DecodeFailed);
    let row = vec![
        ColValue::Int(3),
        ColValue::Timestamp(7),
        ColValue::Text("Ceremony".to_string()),
        ColValue::Text("desc".to_string()),
        ColValue::Timestamp(100),
    ];
    assert_eq!(service_from_row(&row).unwrap_err(), StoreError::DecodeFailed);
}
