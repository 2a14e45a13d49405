use sea_orm_crud::artifact::{generate_from_config, GeneratedArtifact, ServiceMethod};
use sea_orm_crud::config::{parse_config, AttrValue, ConfigEntry, ConfigError};
use sea_orm_crud::entity::{describe_entity, extract_fields, FieldInput};
use sea_orm_crud::naming::to_pascal_case;

fn entry(key: &str, value: AttrValue) -> ConfigEntry {
    ConfigEntry { key: key.to_string(), value }
}

fn str_value(s: &str) -> AttrValue {
    AttrValue::Str(s.to_string())
}

fn field(name: &str, ty: &str) -> FieldInput {
    FieldInput { name: name.to_string(), ty: ty.to_string() }
}

fn demo_fields() -> Vec<FieldInput> {
    vec![
        field("id", "i32"),
        field("name", "String"),
        field("age", "i64"),
        field("created_at", "i64"),
    ]
}

fn base_entries() -> Vec<ConfigEntry> {
    vec![entry("table_name", str_value("users")), entry("comment", str_value("the users"))]
}

fn generate_ok(entries: &Vec<ConfigEntry>) -> GeneratedArtifact {
    generate_from_config("User".to_string(), demo_fields(), entries).expect("generation failed")
}

#[test]
fn pascal_case_of_snake_names() {
    assert_eq!(to_pascal_case("created_at".to_string()), "CreatedAt");
    assert_eq!(to_pascal_case("name".to_string()), "Name");
    assert_eq!(to_pascal_case("a_b_c".to_string()), "ABC");
    assert_eq!(to_pascal_case("already".to_string()), "Already");
}

#[test]
fn pascal_case_keeps_non_letter_heads_and_marks_empty_words() {
    assert_eq!(to_pascal_case("x9_y".to_string()), "X9Y");
    // An empty underscore-separated word contributes the uppercase of the
    // default character, a NUL.
    assert_eq!(to_pascal_case("_x".to_string()), "\u{0}X");
    assert_eq!(to_pascal_case("".to_string()), "\u{0}");
}

#[test]
fn parse_config_reads_recognized_keys() {
    let entries = vec![
        entry("table_name", str_value("users")),
        entry("comment", str_value("a comment")),
        entry("schema_name", str_value("public")),
        entry("table_iden", AttrValue::Absent),
    ];
    let config = parse_config(&entries).expect("parse failed");
    assert_eq!(config.table_name, "users");
    assert_eq!(config.comment.as_deref(), Some("a comment"));
    assert_eq!(config.schema_name.as_deref(), Some("public"));
    assert!(config.table_iden);
}

#[test]
fn parse_config_later_entry_overrides_earlier() {
    let entries = vec![
        entry("table_name", str_value("first")),
        entry("table_name", str_value("second")),
    ];
    let config = parse_config(&entries).expect("parse failed");
    assert_eq!(config.table_name, "second");
}

#[test]
fn parse_config_missing_table_name_is_an_error() {
    let entries = vec![entry("comment", str_value("no table"))];
    assert_eq!(parse_config(&entries), Err(ConfigError::MissingTableName));
    // An empty table name is as missing.
    let entries = vec![entry("table_name", str_value(""))];
    assert_eq!(parse_config(&entries), Err(ConfigError::MissingTableName));
}

#[test]
fn parse_config_malformed_value_is_an_error() {
    let entries = vec![
        entry("table_name", str_value("users")),
        entry("comment", AttrValue::Malformed),
    ];
    assert_eq!(parse_config(&entries), Err(ConfigError::MalformedValue));
    // A bare recognized string key carries no usable value.
    let entries = vec![entry("table_name", AttrValue::Absent)];
    assert_eq!(parse_config(&entries), Err(ConfigError::MalformedValue));
    // A malformed value under an unknown key is an error too.
    let entries = vec![
        entry("table_name", str_value("users")),
        entry("whatever", AttrValue::Malformed),
    ];
    assert_eq!(parse_config(&entries), Err(ConfigError::MalformedValue));
}

#[test]
fn table_iden_is_a_presence_only_flag() {
    let mut entries = base_entries();
    entries.push(entry("table_iden", str_value("something")));
    assert_eq!(parse_config(&entries), Err(ConfigError::MalformedValue));
}

#[test]
fn schema_name_flows_into_the_artifact() {
    let mut entries = base_entries();
    entries.push(entry("schema_name", str_value("public")));
    let artifact = generate_ok(&entries);
    assert_eq!(artifact.schema_name.as_deref(), Some("public"));
    assert_eq!(artifact.comment.as_deref(), Some("the users"));
}

#[test]
fn unknown_keys_are_ignored() {
    let mut entries = base_entries();
    entries.push(entry("primary_key", AttrValue::Absent));
    entries.push(entry("auto_increment", AttrValue::Expr));
    entries.push(entry("rename_all", str_value("camelCase")));
    let config = parse_config(&entries).expect("parse failed");
    assert_eq!(config.table_name, "users");
    assert!(!config.table_iden);
}

#[test]
fn unknown_keys_leave_the_artifact_identical() {
    let plain = generate_ok(&base_entries());
    let mut extra = base_entries();
    extra.insert(1, entry("primary_key", AttrValue::Absent));
    extra.push(entry("rename_all", str_value("camelCase")));
    let with_extra = generate_ok(&extra);
    assert_eq!(plain, with_extra);
}

#[test]
fn extraction_marks_only_the_field_named_id() {
    let marked = extract_fields(demo_fields());
    assert_eq!(marked.len(), 4);
    assert!(marked[0].is_identity);
    assert!(!marked[1].is_identity);
    assert!(!marked[2].is_identity);
    assert!(!marked[3].is_identity);
    assert_eq!(marked[1].name, "name");
    assert_eq!(marked[1].ty, "String");
}

#[test]
fn described_entity_carries_config_and_fields() {
    let config = parse_config(&base_entries()).expect("parse failed");
    let entity = describe_entity("User".to_string(), demo_fields(), config);
    assert_eq!(entity.name, "User");
    assert_eq!(entity.table_name, "users");
    assert_eq!(entity.comment.as_deref(), Some("the users"));
    assert_eq!(entity.schema_name, None);
    assert_eq!(entity.fields.len(), 4);
}

#[test]
fn service_surface_has_three_fixed_and_two_per_field_operations() {
    let artifact = generate_ok(&base_entries());
    // Three non-identity fields.
    let get_by = artifact
        .methods
        .iter()
        .filter(|m| matches!(m, ServiceMethod::GetByField { .. }))
        .count();
    let update = artifact
        .methods
        .iter()
        .filter(|m| matches!(m, ServiceMethod::UpdateField { .. }))
        .count();
    let insert = artifact.methods.iter().filter(|m| matches!(m, ServiceMethod::InsertOne)).count();
    let get_one =
        artifact.methods.iter().filter(|m| matches!(m, ServiceMethod::GetOneById)).count();
    let find = artifact
        .methods
        .iter()
        .filter(|m| matches!(m, ServiceMethod::FindByOptionModel))
        .count();
    assert_eq!(get_by, 3);
    assert_eq!(update, 3);
    assert_eq!(insert, 1);
    assert_eq!(get_one, 1);
    assert_eq!(find, 1);
    assert_eq!(artifact.methods.len(), 9);
}

#[test]
fn identity_field_never_receives_per_field_operations() {
    // Whatever the declared type of a field literally named "id", no
    // getter/updater pair targets it.
    let fields = vec![field("id", "String"), field("payload", "i64")];
    let artifact = generate_from_config("Thing".to_string(), fields, &base_entries())
        .expect("generation failed");
    for m in &artifact.methods {
        match m {
            ServiceMethod::GetByField { field, .. } => assert_ne!(field, "id"),
            ServiceMethod::UpdateField { field, .. } => assert_ne!(field, "id"),
            _ => {},
        }
    }
    assert_eq!(artifact.option_model.len(), 1);
    assert_eq!(artifact.option_model[0].name, "payload");
}

#[test]
fn filter_chain_covers_non_identity_fields_in_order() {
    let artifact = generate_ok(&base_entries());
    let names: Vec<&str> = artifact.filter_chain.iter().map(|s| s.field_name.as_str()).collect();
    assert_eq!(names, vec!["name", "age", "created_at"]);
    let columns: Vec<&str> = artifact.filter_chain.iter().map(|s| s.column_name.as_str()).collect();
    assert_eq!(columns, vec!["Name", "Age", "CreatedAt"]);
}

#[test]
fn artifact_defaults_are_created_at_descending_page_one_of_ten() {
    let artifact = generate_ok(&base_entries());
    assert_eq!(artifact.sort_option.default_column, "CreatedAt");
    assert!(artifact.sort_option.default_desc);
    assert_eq!(artifact.page_option.default_page, 1);
    assert_eq!(artifact.page_option.default_page_size, 10);
    assert_eq!(artifact.table_name, "users");
    assert_eq!(artifact.entity_name, "User");
}

#[test]
fn generation_fails_without_table_name_and_emits_no_artifact() {
    let entries = vec![entry("comment", str_value("no table here"))];
    let result = generate_from_config("User".to_string(), demo_fields(), &entries);
    assert_eq!(result, Err(ConfigError::MissingTableName));
}
