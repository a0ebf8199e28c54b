use std::cell::RefCell;

use ar_settings::{
    channel_check, channel_column_check, permission_check, template_check, json_text, parse_value, settings_create, settings_delete, settings_operation, settings_update, settings_view, validate_value,
    BotPermissionError, ChannelInfo, Column, ColumnType, ExecutionContext, FlagTable, HookContext,
    InnerColumnType, InnerColumnTypeStringKind, OperationType, Setting, SettingHooks,
    SettingOperations, SettingsError, State, Timestamp, Value,
};

struct Env {
    templates: Vec<String>,
    channels: Vec<(u64, ChannelInfo)>,
    bot_perms: u64,
}

impl Env {
    fn plain() -> Env {
        Env { templates: vec![], channels: vec![], bot_perms: 0 }
    }
}

impl ExecutionContext for Env {
    fn template_exists(&self, _guild_id: u64, name: &str) -> Result<bool, String> {
        Ok(self.templates.iter().any(|t| t == name))
    }

    fn channel(&self, _guild_id: u64, channel_id: u64) -> Result<Option<ChannelInfo>, String> {
        Ok(self.channels.iter().find(|(id, _)| *id == channel_id).map(|(_, info)| *info))
    }

    fn bot_permissions(&self, _guild_id: u64, _channel_id: u64) -> Result<u64, BotPermissionError> {
        Ok(self.bot_perms)
    }

    fn parse_float(&self, s: &str) -> Option<u64> {
        s.parse::<f64>().ok().map(f64::to_bits)
    }

    fn float_json(&self, bits: u64) -> Option<String> {
        serde_json::Number::from_f64(f64::from_bits(bits)).map(|n| n.to_string())
    }
}

#[derive(Default)]
struct Hooks {
    created: RefCell<Vec<State>>,
    deleted: RefCell<Vec<Value>>,
    rows: Vec<Vec<(&'static str, Value)>>,
}

fn state_of(entries: Vec<(&str, Value)>) -> State {
    let mut s = State::default();
    for (k, v) in entries {
        s.insert(k.to_string(), v);
    }
    s
}

impl SettingHooks for Hooks {
    fn view(&self, _ctx: &HookContext, _filters: State) -> Result<Vec<State>, SettingsError> {
        Ok(self
            .rows
            .iter()
            .map(|row| state_of(row.iter().map(|(k, v)| (*k, copy_value(v))).collect()))
            .collect())
    }

    fn create(&self, _ctx: &HookContext, state: State) -> Result<State, SettingsError> {
        let out = state_of(state.iter().map(|(k, v)| (k.as_str(), copy_value(v))).collect());
        self.created.borrow_mut().push(state);
        Ok(out)
    }

    fn update(&self, _ctx: &HookContext, state: State) -> Result<State, SettingsError> {
        Ok(state)
    }

    fn delete(&self, _ctx: &HookContext, primary_key: Value) -> Result<(), SettingsError> {
        self.deleted.borrow_mut().push(primary_key);
        Ok(())
    }
}

fn copy_value(v: &Value) -> Value {
    match v {
        Value::Null => Value::Null,
        Value::Boolean(b) => Value::Boolean(*b),
        Value::Integer(i) => Value::Integer(*i),
        Value::Float(f) => Value::Float(*f),
        Value::String(s) => Value::String(s.clone()),
        Value::Uuid(u) => Value::Uuid(*u),
        Value::Timestamp(t) => Value::Timestamp(*t),
        Value::TimestampTz(t) => Value::TimestampTz(*t),
        Value::Interval(i) => Value::Interval(*i),
        Value::Json(j) => Value::Json(j.clone()),
        Value::List(l) => Value::List(l.iter().map(copy_value).collect()),
    }
}

fn column(id: &str, column_type: ColumnType, nullable: bool) -> Column {
    Column { id: id.to_string(), column_type, nullable, secret: false, ignored_for: vec![] }
}

fn all_ops() -> SettingOperations {
    SettingOperations { view: true, create: true, update: true, delete: true }
}

fn setting(columns: Vec<Column>, primary_key: &str) -> Setting {
    Setting { id: "test".to_string(), columns, primary_key: primary_key.to_string(), operations: all_ops() }
}

fn ctx() -> HookContext {
    HookContext { guild_id: 10, author: 20 }
}

fn scalar(inner: InnerColumnType) -> ColumnType {
    ColumnType::Scalar { inner }
}

fn plain_string() -> InnerColumnType {
    InnerColumnType::String {
        min_length: None,
        max_length: None,
        allowed_values: vec![],
        kind: InnerColumnTypeStringKind::Normal,
    }
}

fn colors() -> FlagTable {
    let mut t = FlagTable::default();
    t.insert("red".to_string(), 1);
    t.insert("green".to_string(), 2);
    t.insert("blue".to_string(), 4);
    t
}

fn parse(v: Value, inner: InnerColumnType) -> Result<Value, SettingsError> {
    parse_value(&Env::plain(), v, &scalar(inner), &"col".to_string())
}

fn expect_int(r: Result<Value, SettingsError>) -> i64 {
    match r {
        Ok(Value::Integer(i)) => i,
        other => panic!("expected an integer, got {:?}", other),
    }
}

fn check_name(r: &Result<Value, SettingsError>) -> String {
    match r {
        Err(SettingsError::SchemaCheckValidationError { check, .. }) => check.clone(),
        other => panic!("expected a check error, got {:?}", other),
    }
}

#[test]
fn create_with_empty_integer_fails_null_check() {
    let s = setting(vec![column("limit", scalar(InnerColumnType::Integer), false)], "limit");
    let hooks = Hooks::default();
    let r = settings_create(&Env::plain(), &hooks, &s, &ctx(), state_of(vec![("limit", Value::String(String::new()))]));
    match r {
        Err(SettingsError::SchemaNullValueValidationError { column }) => assert_eq!(column, "limit"),
        other => panic!("unexpected {:?}", other),
    }
    assert!(hooks.created.borrow().is_empty());
}

#[test]
fn bitflag_scenario_keeps_legal_bits_and_defaults() {
    assert_eq!(expect_int(parse(Value::Integer(5), InnerColumnType::BitFlag { values: colors() })), 5);
    assert_eq!(expect_int(parse(Value::Integer(8), InnerColumnType::BitFlag { values: colors() })), 1);
}

#[test]
fn bitflag_zero_and_empty_text_give_default() {
    assert_eq!(expect_int(parse(Value::Integer(0), InnerColumnType::BitFlag { values: colors() })), 1);
    assert_eq!(expect_int(parse(Value::String(String::new()), InnerColumnType::BitFlag { values: colors() })), 1);
    assert_eq!(expect_int(parse(Value::String("6".to_string()), InnerColumnType::BitFlag { values: colors() })), 6);
    assert_eq!(expect_int(parse(Value::Integer(15), InnerColumnType::BitFlag { values: colors() })), 7);
}

#[test]
fn bitflag_empty_table_has_no_default() {
    let r = parse(Value::Integer(0), InnerColumnType::BitFlag { values: FlagTable::default() });
    assert_eq!(check_name(&r), "bitflag_default");
}

#[test]
fn delete_parses_uuid_key_and_calls_hook() {
    let s = setting(
        vec![column("id", scalar(InnerColumnType::Uuid), false), column("name", scalar(plain_string()), true)],
        "id",
    );
    let hooks = Hooks::default();
    let r = settings_delete(
        &Env::plain(),
        &hooks,
        &s,
        &ctx(),
        Value::String("67e55044-10b1-426f-9247-bb680e5fe0c8".to_string()),
    );
    assert!(r.is_ok());
    let deleted = hooks.deleted.borrow();
    assert_eq!(deleted.len(), 1);
    match deleted[0] {
        Value::Uuid(u) => assert_eq!(u, 0x67e5504410b1426f9247bb680e5fe0c8),
        ref other => panic!("unexpected {:?}", other),
    }
}

#[test]
fn delete_without_key_column_is_internal_error() {
    let s = setting(vec![column("id", scalar(InnerColumnType::Uuid), false)], "missing");
    let r = settings_delete(&Env::plain(), &Hooks::default(), &s, &ctx(), Value::Null);
    assert!(matches!(r, Err(SettingsError::Generic { ref message, ref typ, .. }) if typ == "internal" && message == "Primary key column not found"));
}

#[test]
fn operations_without_hooks_are_refused() {
    let mut s = setting(vec![column("a", scalar(InnerColumnType::Integer), true)], "a");
    s.operations = SettingOperations { view: false, create: false, update: false, delete: false };
    let env = Env::plain();
    let hooks = Hooks::default();
    assert!(matches!(
        settings_view(&env, &hooks, &s, &ctx(), State::default()),
        Err(SettingsError::OperationNotSupported { operation: OperationType::View })
    ));
    assert!(matches!(
        settings_create(&env, &hooks, &s, &ctx(), State::default()),
        Err(SettingsError::OperationNotSupported { operation: OperationType::Create })
    ));
    assert!(matches!(
        settings_update(&env, &hooks, &s, &ctx(), State::default()),
        Err(SettingsError::OperationNotSupported { operation: OperationType::Update })
    ));
    assert!(matches!(
        settings_delete(&env, &hooks, &s, &ctx(), Value::Null),
        Err(SettingsError::OperationNotSupported { operation: OperationType::Delete })
    ));
}

#[test]
fn null_rejected_for_non_nullable_columns() {
    let env = Env::plain();
    let kinds = vec![
        InnerColumnType::Uuid,
        plain_string(),
        InnerColumnType::Timestamp,
        InnerColumnType::Interval,
        InnerColumnType::Integer,
        InnerColumnType::Boolean,
        InnerColumnType::BitFlag { values: colors() },
    ];
    for inner in kinds {
        let ct = scalar(inner);
        let p = parse_value(&env, Value::Null, &ct, &"c".to_string()).unwrap();
        let r = validate_value(&env, p, 1, &ct, &"c".to_string(), false);
        assert!(matches!(r, Err(SettingsError::SchemaNullValueValidationError { .. })));
    }
    let ct = scalar(plain_string());
    let p = parse_value(&env, Value::String(String::new()), &ct, &"c".to_string()).unwrap();
    assert!(matches!(p, Value::Null));
    let r = validate_value(&env, p, 1, &ct, &"c".to_string(), false);
    assert!(matches!(r, Err(SettingsError::SchemaNullValueValidationError { .. })));
}

#[test]
fn token_column_fills_itself_in() {
    let env = Env::plain();
    let ct = scalar(InnerColumnType::String {
        min_length: None,
        max_length: None,
        allowed_values: vec![],
        kind: InnerColumnTypeStringKind::Token { default_length: 24 },
    });
    let p = parse_value(&env, Value::String(String::new()), &ct, &"t".to_string()).unwrap();
    match &p {
        Value::String(s) => {
            assert_eq!(s.len(), 24);
            assert!(s.chars().all(|c| c.is_ascii_alphanumeric()));
        },
        other => panic!("unexpected {:?}", other),
    }
    assert!(validate_value(&env, p, 1, &ct, &"t".to_string(), false).is_ok());
}

#[test]
fn reparsing_canonical_values_is_identity() {
    let t = Timestamp { secs: 1_700_000_000, nanos: 0 };
    match parse(Value::Timestamp(t), InnerColumnType::Timestamp) {
        Ok(Value::Timestamp(u)) => assert_eq!(u, t),
        other => panic!("unexpected {:?}", other),
    }
    match parse(Value::Interval(90), InnerColumnType::Interval) {
        Ok(Value::Interval(90)) => {},
        other => panic!("unexpected {:?}", other),
    }
    match parse(Value::Uuid(7), InnerColumnType::Uuid) {
        Ok(Value::Uuid(7)) => {},
        other => panic!("unexpected {:?}", other),
    }
}

#[test]
fn array_with_bad_element_fails() {
    let ct = ColumnType::Array { inner: InnerColumnType::Integer };
    let v = Value::List(vec![Value::Integer(1), Value::String("x".to_string()), Value::Integer(3)]);
    let r = parse_value(&Env::plain(), v, &ct, &"nums".to_string());
    assert_eq!(check_name(&r), "integer_parse");
    match r {
        Err(SettingsError::SchemaCheckValidationError { column, .. }) => assert_eq!(column, "nums[1]"),
        other => panic!("unexpected {:?}", other),
    }
    let v = Value::List(vec![Value::String("4".to_string()), Value::Integer(5)]);
    match parse_value(&Env::plain(), v, &ct, &"nums".to_string()) {
        Ok(Value::List(l)) => {
            assert_eq!(l.len(), 2);
            assert!(matches!(l[0], Value::Integer(4)));
            assert!(matches!(l[1], Value::Integer(5)));
        },
        other => panic!("unexpected {:?}", other),
    }
}

#[test]
fn array_validation_reports_the_bad_element() {
    let ct = ColumnType::Array {
        inner: InnerColumnType::String {
            min_length: Some(2),
            max_length: None,
            allowed_values: vec![],
            kind: InnerColumnTypeStringKind::Normal,
        },
    };
    let v = Value::List(vec![Value::String("ok".to_string()), Value::String("x".to_string())]);
    let r = validate_value(&Env::plain(), v, 1, &ct, &"names".to_string(), true);
    assert_eq!(check_name(&r), "minlength");
    match r {
        Err(SettingsError::SchemaCheckValidationError { column, .. }) => assert_eq!(column, "names[1]"),
        other => panic!("unexpected {:?}", other),
    }
}

fn secret_setting() -> Setting {
    let mut token = column("token", scalar(plain_string()), true);
    token.secret = true;
    let mut note = column("note", scalar(plain_string()), true);
    note.ignored_for = vec![OperationType::View, OperationType::Create];
    setting(vec![column("id", scalar(InnerColumnType::Integer), false), token, note], "id")
}

#[test]
fn view_hides_secret_and_ignored_columns() {
    let s = secret_setting();
    let hooks = Hooks {
        rows: vec![vec![
            ("id", Value::String("12".to_string())),
            ("token", Value::String("abc".to_string())),
            ("note", Value::String("n".to_string())),
            ("extra", Value::Boolean(true)),
        ]],
        ..Hooks::default()
    };
    let out = settings_view(&Env::plain(), &hooks, &s, &ctx(), State::default()).unwrap();
    assert_eq!(out.len(), 1);
    assert!(matches!(out[0].get("id"), Some(Value::Integer(12))));
    assert!(out[0].get("token").is_none());
    assert!(out[0].get("note").is_none());
    assert!(matches!(out[0].get("extra"), Some(Value::Boolean(true))));
}

#[test]
fn create_hands_secret_columns_to_hook() {
    let s = secret_setting();
    let hooks = Hooks::default();
    let fields = state_of(vec![
        ("id", Value::Integer(3)),
        ("token", Value::String("hunter".to_string())),
        ("note", Value::String("dropped".to_string())),
    ]);
    settings_create(&Env::plain(), &hooks, &s, &ctx(), fields).unwrap();
    let created = hooks.created.borrow();
    assert!(matches!(created[0].get("token"), Some(Value::String(t)) if t == "hunter"));
    assert!(created[0].get("note").is_none());
    assert!(matches!(created[0].get("id"), Some(Value::Integer(3))));
}

#[test]
fn update_fills_missing_nullable_columns_with_null() {
    let s = secret_setting();
    let hooks = Hooks::default();
    let out = settings_update(&Env::plain(), &hooks, &s, &ctx(), state_of(vec![("id", Value::Integer(3))])).unwrap();
    assert!(matches!(out.get("token"), Some(Value::Null)));
    assert!(matches!(out.get("note"), Some(Value::Null)));
}

#[test]
fn type_errors_name_both_kinds() {
    match parse(Value::Boolean(true), InnerColumnType::Integer) {
        Err(SettingsError::SchemaTypeValidationError { column, expected_type, got_type }) => {
            assert_eq!(column, "col");
            assert_eq!(expected_type, "Integer");
            assert_eq!(got_type, "Boolean");
        },
        other => panic!("unexpected {:?}", other),
    }
    match parse(Value::List(vec![]), InnerColumnType::Integer) {
        Err(SettingsError::SchemaTypeValidationError { expected_type, got_type, .. }) => {
            assert_eq!(expected_type, "Scalar");
            assert_eq!(got_type, "Array");
        },
        other => panic!("unexpected {:?}", other),
    }
}

#[test]
fn check_errors_name_their_check() {
    assert_eq!(check_name(&parse(Value::String("nope".to_string()), InnerColumnType::Uuid)), "uuid_parse");
    assert_eq!(check_name(&parse(Value::String("12a".to_string()), InnerColumnType::Integer)), "integer_parse");
    assert_eq!(check_name(&parse(Value::String("yes".to_string()), InnerColumnType::Boolean)), "boolean_parse");
    assert_eq!(check_name(&parse(Value::String("5 fortnights".to_string()), InnerColumnType::Interval)), "interval_parse");
    assert_eq!(check_name(&parse(Value::String("2024-13-01 00:00:00".to_string()), InnerColumnType::Timestamp)), "timestamp_parse");
    assert_eq!(check_name(&parse(Value::String("x".to_string()), InnerColumnType::Float)), "float_parse");
    assert_eq!(check_name(&parse(Value::String("{oops".to_string()), InnerColumnType::Json { max_bytes: None })), "json_parse");
    assert_eq!(check_name(&parse(Value::String("[1,2,3]".to_string()), InnerColumnType::Json { max_bytes: Some(3) })), "json_max_bytes");
}

#[test]
fn string_checks_apply_in_order() {
    let env = Env::plain();
    let ct = scalar(InnerColumnType::String {
        min_length: Some(2),
        max_length: Some(4),
        allowed_values: vec!["ab".to_string(), "abcd".to_string()],
        kind: InnerColumnTypeStringKind::Normal,
    });
    let c = "s".to_string();
    let check = |text: &str| validate_value(&env, Value::String(text.to_string()), 1, &ct, &c, true);
    assert_eq!(check_name(&check("a")), "minlength");
    assert_eq!(check_name(&check("abcde")), "maxlength");
    assert_eq!(check_name(&check("abc")), "allowed_values");
    assert!(matches!(check("abcd"), Ok(Value::String(s)) if s == "abcd"));
    match check("a") {
        Err(SettingsError::SchemaCheckValidationError { accepted_range, .. }) => assert_eq!(accepted_range, ">2"),
        other => panic!("unexpected {:?}", other),
    }
}

fn kind_column(kind: InnerColumnTypeStringKind) -> ColumnType {
    scalar(InnerColumnType::String { min_length: None, max_length: None, allowed_values: vec![], kind })
}

#[test]
fn platform_checks_use_the_context() {
    let env = Env {
        templates: vec!["welcome".to_string()],
        channels: vec![
            (100, ChannelInfo { guild_id: Some(1), kind: 0 }),
            (200, ChannelInfo { guild_id: Some(2), kind: 0 }),
            (300, ChannelInfo { guild_id: Some(1), kind: 2 }),
        ],
        bot_perms: 0b0110,
    };
    let c = "c".to_string();
    let run = |kind: InnerColumnTypeStringKind, text: &str| {
        validate_value(&env, Value::String(text.to_string()), 1, &kind_column(kind), &c, true)
    };
    assert!(run(InnerColumnTypeStringKind::TemplateRef, "welcome").is_ok());
    assert_eq!(check_name(&run(InnerColumnTypeStringKind::TemplateRef, "bye")), "template_ref");
    assert!(run(InnerColumnTypeStringKind::Role, "123").is_ok());
    assert_eq!(check_name(&run(InnerColumnTypeStringKind::Role, "0")), "snowflake_parse");
    assert_eq!(check_name(&run(InnerColumnTypeStringKind::User, "<@1>")), "snowflake_parse");
    let channel = |allowed: Vec<u8>, needed: u64| InnerColumnTypeStringKind::Channel {
        allowed_channel_types: allowed,
        needed_bot_permissions: needed,
    };
    assert!(run(channel(vec![], 0b0100), "100").is_ok());
    assert_eq!(check_name(&run(channel(vec![], 0), "200")), "channel_check");
    assert_eq!(check_name(&run(channel(vec![], 0), "999")), "channel_check");
    assert_eq!(check_name(&run(channel(vec![0], 0), "300")), "allowed_channel_types");
    assert_eq!(check_name(&run(channel(vec![], 0b1000), "100")), "bot_permissions");
    assert_eq!(check_name(&run(channel(vec![], 0), "abc")), "snowflake_parse");
}

#[test]
fn strings_and_times_convert_between_kinds() {
    match parse(Value::Uuid(0x67e5504410b1426f9247bb680e5fe0c8), plain_string()) {
        Ok(Value::String(s)) => assert_eq!(s, "67e55044-10b1-426f-9247-bb680e5fe0c8"),
        other => panic!("unexpected {:?}", other),
    }
    match parse(Value::String("2024-01-02 03:04:05".to_string()), InnerColumnType::Timestamp) {
        Ok(Value::Timestamp(t)) => assert_eq!(t, Timestamp { secs: 1_704_164_645, nanos: 0 }),
        other => panic!("unexpected {:?}", other),
    }
    match parse(Value::String("2024-01-02T03:04:05+01:00".to_string()), InnerColumnType::TimestampTz) {
        Ok(Value::TimestampTz(t)) => assert_eq!(t, Timestamp { secs: 1_704_161_045, nanos: 0 }),
        other => panic!("unexpected {:?}", other),
    }
    match parse(Value::TimestampTz(Timestamp { secs: 5, nanos: 6 }), InnerColumnType::Timestamp) {
        Ok(Value::Timestamp(t)) => assert_eq!(t, Timestamp { secs: 5, nanos: 6 }),
        other => panic!("unexpected {:?}", other),
    }
    match parse(Value::String("10 minutes".to_string()), InnerColumnType::Interval) {
        Ok(Value::Interval(600)) => {},
        other => panic!("unexpected {:?}", other),
    }
    match parse(Value::Integer(42), InnerColumnType::Interval) {
        Ok(Value::Interval(42)) => {},
        other => panic!("unexpected {:?}", other),
    }
    match parse(Value::String("true".to_string()), InnerColumnType::Boolean) {
        Ok(Value::Boolean(true)) => {},
        other => panic!("unexpected {:?}", other),
    }
    match parse(Value::String("-17".to_string()), InnerColumnType::Integer) {
        Ok(Value::Integer(-17)) => {},
        other => panic!("unexpected {:?}", other),
    }
    match parse(Value::String("2.5".to_string()), InnerColumnType::Float) {
        Ok(Value::Float(bits)) => assert_eq!(f64::from_bits(bits), 2.5),
        other => panic!("unexpected {:?}", other),
    }
}

#[test]
fn json_columns_quote_parse_and_cap() {
    match parse(Value::String("hello".to_string()), InnerColumnType::Json { max_bytes: None }) {
        Ok(Value::Json(t)) => assert_eq!(t, "\"hello\""),
        other => panic!("unexpected {:?}", other),
    }
    match parse(Value::String("{ \"a\" : [1, 2] }".to_string()), InnerColumnType::Json { max_bytes: Some(100) }) {
        Ok(Value::Json(t)) => assert_eq!(t, "{\"a\":[1,2]}"),
        other => panic!("unexpected {:?}", other),
    }
    match parse(Value::Integer(12345), InnerColumnType::Json { max_bytes: Some(5) }) {
        Ok(Value::Integer(12345)) => {},
        other => panic!("unexpected {:?}", other),
    }
    let r = parse(Value::Integer(123456), InnerColumnType::Json { max_bytes: Some(5) });
    match r {
        Err(SettingsError::SchemaCheckValidationError { check, accepted_range, .. }) => {
            assert_eq!(check, "json_max_bytes");
            assert_eq!(accepted_range, "<5");
        },
        other => panic!("unexpected {:?}", other),
    }
    let ct = ColumnType::Array { inner: InnerColumnType::Json { max_bytes: Some(7) } };
    let v = Value::List(vec![Value::Integer(1), Value::Boolean(true)]);
    let r = parse_value(&Env::plain(), v, &ct, &"j".to_string());
    assert_eq!(check_name(&r), "json_max_bytes");
}

#[test]
fn json_text_writes_each_kind() {
    let env = Env::plain();
    let text = |v: Value| json_text(&env, &v);
    assert_eq!(text(Value::Null).as_deref(), Some("null"));
    assert_eq!(text(Value::Boolean(false)).as_deref(), Some("false"));
    assert_eq!(text(Value::Integer(-12)).as_deref(), Some("-12"));
    assert_eq!(text(Value::String("a\"b".to_string())).as_deref(), Some("\"a\\\"b\""));
    assert_eq!(text(Value::Uuid(1)).as_deref(), Some("\"00000000-0000-0000-0000-000000000001\""));
    assert_eq!(
        text(Value::Timestamp(Timestamp { secs: 5, nanos: 0 })).as_deref(),
        Some("\"1970-01-01T00:00:05+00:00\"")
    );
    assert_eq!(text(Value::Interval(60)).as_deref(), Some("60"));
    assert_eq!(text(Value::Float(1.5f64.to_bits())).as_deref(), Some("1.5"));
    assert_eq!(
        text(Value::List(vec![Value::Integer(1), Value::Json("{}".to_string())])).as_deref(),
        Some("[1,{}]")
    );
}

#[test]
fn operation_requests_dispatch_by_kind() {
    let env = Env::plain();
    let s = secret_setting();
    let hooks = Hooks::default();
    let r = settings_operation(&env, &hooks, None, &ctx(), OperationType::View, State::default());
    assert!(matches!(r, Err(SettingsError::Generic { ref message, ref src, ref typ }) if message == "Setting not found" && src == "SettingsOperationCore" && typ == "client"));
    let r = settings_operation(&env, &hooks, Some(&s), &ctx(), OperationType::Delete, State::default());
    match r {
        Err(SettingsError::MissingOrInvalidField { field, src }) => {
            assert_eq!(field, "id");
            assert_eq!(src, "SettingsOperation");
        },
        other => panic!("unexpected {:?}", other),
    }
    let r = settings_operation(&env, &hooks, Some(&s), &ctx(), OperationType::Delete, state_of(vec![("id", Value::String("9".to_string()))]));
    assert_eq!(r.unwrap().len(), 0);
    assert!(matches!(hooks.deleted.borrow()[0], Value::Integer(9)));
    let r = settings_operation(&env, &hooks, Some(&s), &ctx(), OperationType::Create, state_of(vec![("id", Value::Integer(1))]));
    assert_eq!(r.unwrap().len(), 1);
}

#[test]
fn settings_report_repeated_column_ids() {
    assert!(secret_setting().has_distinct_column_ids());
    let s = setting(
        vec![column("a", scalar(InnerColumnType::Integer), true), column("a", scalar(InnerColumnType::Boolean), true)],
        "a",
    );
    assert!(!s.has_distinct_column_ids());
}

fn unit_check_error(r: Result<(), SettingsError>) -> (String, String) {
    match r {
        Err(SettingsError::SchemaCheckValidationError { check, error, .. }) => (check, error),
        other => panic!("expected a check error, got {:?}", other),
    }
}

#[test]
fn lookup_answers_decide_checks() {
    let c = "c".to_string();
    assert!(template_check(Ok(true), &c).is_ok());
    assert_eq!(unit_check_error(template_check(Ok(false), &c)), ("template_ref".to_string(), "Template not found".to_string()));
    assert_eq!(unit_check_error(template_check(Err("db down".to_string()), &c)), ("template_ref".to_string(), "db down".to_string()));
    let here = ChannelInfo { guild_id: Some(1), kind: 0 };
    assert!(channel_check(1, Ok(Some(here)), &vec![], &c).is_ok());
    assert_eq!(unit_check_error(channel_check(1, Ok(None), &vec![], &c)).0, "channel_check");
    assert_eq!(unit_check_error(channel_check(2, Ok(Some(here)), &vec![], &c)).0, "channel_check");
    assert_eq!(unit_check_error(channel_check(1, Ok(Some(here)), &vec![4], &c)).0, "allowed_channel_types");
    assert!(permission_check(Ok(0b111), 0b101, &c).is_ok());
    assert_eq!(unit_check_error(permission_check(Ok(0b011), 0b101, &c)).0, "bot_permissions");
    assert_eq!(unit_check_error(permission_check(Err(BotPermissionError::BotUserNotFound), 1, &c)).0, "bot_user");
    assert_eq!(unit_check_error(permission_check(Err(BotPermissionError::Guild("x".to_string())), 1, &c)).0, "guild");
}

#[test]
fn channel_column_decided_from_both_answers() {
    let c = "c".to_string();
    let here = ChannelInfo { guild_id: Some(1), kind: 0 };
    assert!(channel_column_check(1, Ok(Some(here)), Ok(0b11), &vec![], 0b01, &c).is_ok());
    assert_eq!(unit_check_error(channel_column_check(0, Ok(Some(here)), Ok(0b11), &vec![], 0, &c)).0, "channel_check");
    assert_eq!(unit_check_error(channel_column_check(1, Ok(Some(here)), Ok(0b10), &vec![], 0b01, &c)).0, "bot_permissions");
    assert!(channel_column_check(1, Ok(Some(here)), Ok(0), &vec![0], 0, &c).is_ok());
}

#[test]
fn allowed_values_report_their_range() {
    let ct = scalar(InnerColumnType::String {
        min_length: None,
        max_length: None,
        allowed_values: vec!["a".to_string(), "b".to_string()],
        kind: InnerColumnTypeStringKind::Normal,
    });
    match validate_value(&Env::plain(), Value::String("c".to_string()), 1, &ct, &"s".to_string(), true) {
        Err(SettingsError::SchemaCheckValidationError { accepted_range, error, .. }) => {
            assert_eq!(accepted_range, "one of: a b");
            assert_eq!(error, "value not allowed");
        },
        other => panic!("unexpected {:?}", other),
    }
}
