use granite::tools::{required_field, ToolError};

fn field<'a>(args: &'a serde_json::Value, name: &str) -> Option<&'a str> {
    args.get(name).and_then(|v| v.as_str())
}

fn json(text: &str) -> serde_json::Value {
    serde_json::from_str(text).unwrap()
}

#[test]
fn missing_path_arg_is_invalid_args() {
    let args = json("{}");
    let err = required_field(field(&args, "path"), "path").unwrap_err();
    assert!(matches!(err, ToolError::InvalidArgs(_)));
}

#[test]
fn write_missing_args_is_invalid_args() {
    let args = json(r#"{ "path": "/tmp/whatever.txt" }"#);
    assert_eq!(required_field(field(&args, "path"), "path").unwrap(), "/tmp/whatever.txt");
    let err = required_field(field(&args, "content"), "content").unwrap_err();
    assert!(matches!(err, ToolError::InvalidArgs(_)));
}

#[test]
fn list_dir_missing_path_arg_is_invalid_args() {
    let args = json("{}");
    let err = required_field(field(&args, "path"), "path").unwrap_err();
    assert!(matches!(err, ToolError::InvalidArgs(_)));
}

#[test]
fn non_string_path_is_reported_missing_by_name() {
    let args = json(r#"{ "path": 3 }"#);
    let err = required_field(field(&args, "path"), "path").unwrap_err();
    match err {
        ToolError::InvalidArgs(m) => assert_eq!(m, "missing 'path' field"),
        other => panic!("expected InvalidArgs, got {other:?}"),
    }
}
