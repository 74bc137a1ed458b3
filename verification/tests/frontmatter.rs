use tfmttools::error::TFMTError;
use tfmttools::frontmatter::{parse_i64, ArgKind, ArgSpec, ArgValue, Frontmatter};

fn text_field(table: &toml::Table, key: &str, label: &str) -> Result<Option<String>, TFMTError> {
    match table.get(key) {
        None => Ok(None),
        Some(toml::Value::String(s)) => Ok(Some(s.clone())),
        Some(other) => Err(TFMTError::FrontmatterParse(
            label.to_owned(),
            format!("invalid type for `{key}`: {other}"),
        )),
    }
}

fn arg_spec(value: &toml::Value, label: &str) -> Result<ArgSpec, TFMTError> {
    let table = match value {
        toml::Value::Table(t) => t,
        _ => {
            return Err(TFMTError::FrontmatterParse(label.to_owned(), "expected a table".to_owned()))
        },
    };
    let name = text_field(table, "name", label)?.ok_or_else(|| {
        TFMTError::FrontmatterParse(label.to_owned(), "missing field `name`".to_owned())
    })?;
    let kind = match text_field(table, "type", label)?.as_deref() {
        None | Some("string") => ArgKind::String,
        Some("int") => ArgKind::Int,
        Some("path") => ArgKind::Path,
        Some(other) => {
            return Err(TFMTError::FrontmatterParse(
                label.to_owned(),
                format!("unknown variant `{other}`"),
            ))
        },
    };
    let required = match table.get("required") {
        None => false,
        Some(toml::Value::Boolean(b)) => *b,
        Some(_) => {
            return Err(TFMTError::FrontmatterParse(label.to_owned(), "invalid `required`".to_owned()))
        },
    };
    let default = text_field(table, "default", label)?;
    let description = text_field(table, "description", label)?;
    Ok(ArgSpec::new(name, kind, required, default, description))
}

/// Reads a frontmatter block the way the application does, then checks
/// its argument names.
fn parse_frontmatter(text: &str, label: &str) -> Result<Frontmatter, TFMTError> {
    let table: toml::Table = toml::from_str(text)
        .map_err(|e| TFMTError::FrontmatterParse(label.to_owned(), e.to_string()))?;
    let name = text_field(&table, "name", label)?;
    let description = text_field(&table, "description", label)?;
    let mut args = Vec::new();
    match table.get("args") {
        None => {},
        Some(toml::Value::Array(items)) => {
            for item in items {
                args.push(arg_spec(item, label)?);
            }
        },
        Some(_) => {
            return Err(TFMTError::FrontmatterParse(label.to_owned(), "invalid `args`".to_owned()))
        },
    }
    let frontmatter = Frontmatter::new(name, description, args);
    frontmatter.check_argument_names(label)?;
    Ok(frontmatter)
}

fn value_text(value: ArgValue) -> String {
    match value {
        ArgValue::Undefined => String::new(),
        ArgValue::Int(i) => i.to_string(),
        ArgValue::Str(s) => s,
    }
}

#[test]
fn parse_valid_frontmatter() {
    let toml = r#"
name = "Stef's layout"
description = "Group by artist and album."

args = [
    { name = "prefix", type = "path", required = true, description = "Directory prefix." },
    { name = "extra", type = "string", required = false, default = "", description = "Optional suffix." },
]
"#;

    let frontmatter = parse_frontmatter(toml, "test").unwrap();

    assert_eq!(frontmatter.name(), Some("Stef's layout"));
    assert_eq!(frontmatter.description(), Some("Group by artist and album."));
    assert_eq!(frontmatter.args().len(), 2);
    assert_eq!(frontmatter.args()[0].name(), "prefix");
    assert_eq!(frontmatter.args()[0].kind(), ArgKind::Path);
    assert!(frontmatter.args()[0].required());
    assert_eq!(frontmatter.args()[1].kind(), ArgKind::String);
    assert!(!frontmatter.args()[1].required());
}

#[test]
fn parse_missing_arg_name_is_error() {
    let toml = "args = [{ type = \"string\" }]";

    assert!(parse_frontmatter(toml, "test").is_err());
}

#[test]
fn parse_unknown_type_is_error() {
    let toml = "args = [{ name = \"prefix\", type = \"float\" }]";

    assert!(parse_frontmatter(toml, "test").is_err());
}

#[test]
fn parse_duplicate_arg_names_is_error() {
    let toml = r#"
args = [
    { name = "prefix", type = "string" },
    { name = "prefix", type = "int" },
]
"#;

    let error = parse_frontmatter(toml, "test").unwrap_err();

    assert!(matches!(error, TFMTError::DuplicateArgumentName(_, _)));
}

#[test]
fn parse_defaults_kind_to_string_and_required_to_false() {
    let toml = "args = [{ name = \"prefix\" }]";

    let frontmatter = parse_frontmatter(toml, "test").unwrap();

    assert_eq!(frontmatter.args()[0].kind(), ArgKind::String);
    assert!(!frontmatter.args()[0].required());
}

#[test]
fn resolve_uses_default_when_argument_omitted() {
    let toml = "args = [{ name = \"suffix\", type = \"string\", default = \"tag\" }]";
    let frontmatter = parse_frontmatter(toml, "test").unwrap();

    let resolved = frontmatter.resolve("test", &[]).unwrap();

    assert_eq!(value_text(resolved.get_named("suffix").unwrap()), "tag");
}

#[test]
fn resolve_errors_on_missing_required_argument() {
    let toml = "args = [{ name = \"prefix\", type = \"string\", required = true }]";
    let frontmatter = parse_frontmatter(toml, "test").unwrap();

    let error = frontmatter.resolve("test", &[]).unwrap_err();

    assert!(matches!(error, TFMTError::MissingRequiredArgument(_, _, _)));
}

#[test]
fn resolve_errors_on_too_many_positional_arguments() {
    let toml = "args = [{ name = \"prefix\", type = \"string\" }]";
    let frontmatter = parse_frontmatter(toml, "test").unwrap();

    let error = frontmatter.resolve("test", &["a".to_owned(), "b".to_owned()]).unwrap_err();

    assert!(matches!(error, TFMTError::TooManyArguments(_, _, _)));
}

#[test]
fn resolve_allows_extra_positional_arguments_when_no_args_declared() {
    let toml = "name = \"No args\"";
    let frontmatter = parse_frontmatter(toml, "test").unwrap();

    let resolved = frontmatter.resolve("test", &["a".to_owned(), "b".to_owned()]).unwrap();

    assert!(resolved.get_named("a").is_none());
}

#[test]
fn resolve_errors_on_int_parse_failure() {
    let toml = "args = [{ name = \"count\", type = \"int\" }]";
    let frontmatter = parse_frontmatter(toml, "test").unwrap();

    let error = frontmatter.resolve("test", &["not-a-number".to_owned()]).unwrap_err();

    assert!(matches!(error, TFMTError::InvalidArgumentValue(_, _, _, _)));
}

#[test]
fn resolve_sanitizes_string_argument() {
    let toml = "args = [{ name = \"tag\", type = \"string\" }]";
    let frontmatter = parse_frontmatter(toml, "test").unwrap();

    let resolved = frontmatter.resolve("test", &["a:b*c.".to_owned()]).unwrap();

    assert_eq!(value_text(resolved.get_named("tag").unwrap()), "abc");
}

#[test]
fn resolve_normalizes_path_argument_trailing_separators() {
    let toml = "args = [{ name = \"prefix\", type = \"path\" }]";
    let frontmatter = parse_frontmatter(toml, "test").unwrap();

    for raw in ["a/b", "a/b/", "a/b//", "a\\b\\"] {
        let resolved = frontmatter.resolve("test", &[raw.to_owned()]).unwrap();

        assert_eq!(value_text(resolved.get_named("prefix").unwrap()), "a/b/");
    }
}

#[test]
fn resolve_sanitizes_each_path_segment() {
    let toml = "args = [{ name = \"prefix\", type = \"path\" }]";
    let frontmatter = parse_frontmatter(toml, "test").unwrap();

    let resolved = frontmatter.resolve("test", &["a:b/c*d".to_owned()]).unwrap();

    assert_eq!(value_text(resolved.get_named("prefix").unwrap()), "ab/cd/");
}

#[test]
fn resolve_parses_int_argument() {
    let toml = "args = [{ name = \"count\", type = \"int\" }]";
    let frontmatter = parse_frontmatter(toml, "test").unwrap();

    let resolved = frontmatter.resolve("test", &["-42".to_owned()]).unwrap();

    assert!(matches!(resolved.get_named("count"), Some(ArgValue::Int(-42))));
    assert_eq!(resolved.positional().len(), 1);
}

#[test]
fn resolve_leaves_optional_argument_undefined() {
    let toml = "args = [{ name = \"extra\" }]";
    let frontmatter = parse_frontmatter(toml, "test").unwrap();

    let resolved = frontmatter.resolve("test", &[]).unwrap();

    assert!(matches!(resolved.get_named("extra"), Some(ArgValue::Undefined)));
}

#[test]
fn invalid_int_error_names_argument_and_value() {
    let toml = "args = [{ name = \"count\", type = \"int\" }]";
    let frontmatter = parse_frontmatter(toml, "label").unwrap();

    let error = frontmatter.resolve("label", &["x1".to_owned()]).unwrap_err();

    match error {
        TFMTError::InvalidArgumentValue(label, name, description, raw) => {
            assert_eq!(label, "label");
            assert_eq!(name, "count");
            assert_eq!(description, "(no description provided)");
            assert_eq!(raw, "x1");
        },
        other => panic!("unexpected error {other:?}"),
    }
}

#[test]
fn too_many_arguments_error_counts() {
    let toml = "args = [{ name = \"a\" }]";
    let frontmatter = parse_frontmatter(toml, "t").unwrap();

    let error = frontmatter.resolve("t", &["1".to_owned(), "2".to_owned(), "3".to_owned()]).unwrap_err();

    assert!(matches!(error, TFMTError::TooManyArguments(_, 1, 3)));
}

#[test]
fn parse_i64_matches_std() {
    for text in ["0", "+7", "-7", "9223372036854775807", "-9223372036854775808", "", "-", "+", "1a", "9223372036854775808", "-9223372036854775809", " 1"] {
        assert_eq!(parse_i64(text), text.parse::<i64>().ok(), "{text}");
    }
}

#[test]
fn arg_kind_names() {
    assert_eq!(ArgKind::String.as_str(), "string");
    assert_eq!(ArgKind::Int.as_str(), "int");
    assert_eq!(ArgKind::Path.as_str(), "path");
}

// ---------------------------------------------------------------------------
// Template sources
// ---------------------------------------------------------------------------
use tfmttools::templates::{
    body_uses_indexed_args, complete_frontmatter_split, description, path_is_template,
    resolve_display_metadata, split_frontmatter_text, Template,
};

/// Splits a template source and parses its frontmatter, as the template
/// loader does.
fn split_frontmatter(
    label: &str,
    source: String,
) -> Result<(String, Option<Frontmatter>), TFMTError> {
    let split = split_frontmatter_text(label, &source)?;
    let parsed = split
        .frontmatter_text
        .as_deref()
        .map(|text| parse_frontmatter_unchecked(text, label));
    complete_frontmatter_split(label, split, parsed)
}

/// Parses frontmatter text without the duplicate-name check (which the
/// split performs).
fn parse_frontmatter_unchecked(text: &str, label: &str) -> Result<Frontmatter, TFMTError> {
    let table: toml::Table = toml::from_str(text)
        .map_err(|e| TFMTError::FrontmatterParse(label.to_owned(), e.to_string()))?;
    let name = text_field(&table, "name", label)?;
    let description = text_field(&table, "description", label)?;
    let mut args = Vec::new();
    if let Some(toml::Value::Array(items)) = table.get("args") {
        for item in items {
            args.push(arg_spec(item, label)?);
        }
    }
    Ok(Frontmatter::new(name, description, args))
}

#[test]
fn split_frontmatter_returns_none_when_absent() {
    let source = "{{ artist }}/{{ title }}".to_owned();

    let (body, frontmatter) = split_frontmatter("test", source.clone()).unwrap();

    assert_eq!(body, source);
    assert!(frontmatter.is_none());
}

#[test]
fn split_frontmatter_parses_present_block() {
    let source = "+++\nname = \"Test\"\n+++\n{{ artist }}".to_owned();

    let (body, frontmatter) = split_frontmatter("test", source).unwrap();

    assert_eq!(body, "{{ artist }}");
    assert_eq!(frontmatter.unwrap().name(), Some("Test"));
}

#[test]
fn split_frontmatter_handles_empty_toml_block() {
    let source = "+++\n+++\n{{ artist }}".to_owned();

    let (body, frontmatter) = split_frontmatter("test", source).unwrap();

    assert_eq!(body, "{{ artist }}");
    assert!(frontmatter.is_some());
    assert_eq!(frontmatter.unwrap().name(), None);
}

#[test]
fn split_frontmatter_handles_empty_toml_block_crlf() {
    let source = "+++\r\n+++\r\n{{ artist }}".to_owned();

    let (body, frontmatter) = split_frontmatter("test", source).unwrap();

    assert_eq!(body, "{{ artist }}");
    assert!(frontmatter.is_some());
    assert_eq!(frontmatter.unwrap().name(), None);
}

#[test]
fn split_frontmatter_errors_when_unterminated() {
    let source = "+++\nname = \"Test\"\n{{ artist }}".to_owned();

    let error = split_frontmatter("test", source).unwrap_err();

    assert!(matches!(error, TFMTError::UnterminatedFrontmatter(_)));
}

#[test]
fn split_frontmatter_errors_when_body_uses_indexed_args() {
    let source = "+++\nname = \"Test\"\n+++\n{{ args[0] }}".to_owned();

    let error = split_frontmatter("test", source).unwrap_err();

    assert!(matches!(error, TFMTError::IndexedArgsWithFrontmatter(_)));
}

#[test]
fn split_frontmatter_allows_kwargs_identifier_with_frontmatter() {
    let source = "+++\nname = \"Test\"\n+++\n{{ kwargs[0] }}".to_owned();

    let (body, frontmatter) = split_frontmatter("test", source).unwrap();

    assert_eq!(body, "{{ kwargs[0] }}");
    assert!(frontmatter.is_some());
}

#[test]
fn split_frontmatter_allows_indexed_args_without_frontmatter() {
    let source = "{{ args[0] }}".to_owned();

    let (body, frontmatter) = split_frontmatter("test", source.clone()).unwrap();

    assert_eq!(body, source);
    assert!(frontmatter.is_none());
}

#[test]
fn split_frontmatter_keeps_trailing_blanks_on_fences() {
    let source = "+++  \t\nname = \"Test\"\n+++ \r\nbody\n".to_owned();

    let (body, frontmatter) = split_frontmatter("test", source).unwrap();

    assert_eq!(body, "body\n");
    assert_eq!(frontmatter.unwrap().name(), Some("Test"));
}

#[test]
fn split_frontmatter_needs_fence_line_at_start() {
    let split = split_frontmatter_text("t", "+++ name").unwrap_err();

    assert!(matches!(split, TFMTError::UnterminatedFrontmatter(label) if label == "t"));
}

#[test]
fn split_frontmatter_closing_fence_at_end_of_text() {
    let split = split_frontmatter_text("t", "+++\na = 1\n+++").unwrap();

    assert_eq!(split.body, "");
    assert_eq!(split.frontmatter_text.as_deref(), Some("a = 1\n"));
}

#[test]
fn split_frontmatter_parse_error_comes_before_indexed_args() {
    let source = "+++\nname = \n+++\n{{ args[0] }}".to_owned();

    let error = split_frontmatter("test", source).unwrap_err();

    assert!(matches!(error, TFMTError::FrontmatterParse(_, _)));
}

#[test]
fn indexed_args_are_detected_by_word() {
    assert!(body_uses_indexed_args("{{ args [1] }}"));
    assert!(body_uses_indexed_args("{{args[0]}}"));
    assert!(!body_uses_indexed_args("{{ kwargs[0] }}"));
    assert!(!body_uses_indexed_args("{{ args }}"));
}

#[test]
fn leading_comment_is_description() {
    assert_eq!(description("  {# A layout #}\n{{ artist }}"), Some("A layout".to_owned()));
    assert_eq!(description("{{ artist }} {# not leading #}"), None);
    assert_eq!(description("{# unterminated"), None);
    assert_eq!(description("{# {# nested #}"), Some("nested".to_owned()));
}

#[test]
fn template_files_are_recognised_by_extension() {
    assert!(path_is_template("templates/simple.tfmt"));
    assert!(path_is_template("a.jinja"));
    assert!(path_is_template("a.j2"));
    assert!(!path_is_template("a.txt"));
    assert!(!path_is_template("tfmt"));
}

#[test]
fn get_template_errors_on_missing_required_argument() {
    let script = "+++\nargs = [{ name = \"prefix\", type = \"string\", required = true }]\n+++\n{{ prefix }}";
    let (body, frontmatter) = split_frontmatter("script", script.to_owned()).unwrap();
    let frontmatter = frontmatter.unwrap();
    let (name, desc) = resolve_display_metadata("script", Some(&frontmatter), &body);

    let error = Template::new("script", name, desc, Vec::new(), Some(&frontmatter)).unwrap_err();

    assert!(matches!(error, TFMTError::MissingRequiredArgument(_, _, _)));
}

#[test]
fn get_template_resolves_declared_arguments() {
    let script = "+++\nargs = [{ name = \"prefix\", type = \"string\" }]\n+++\n{{ prefix }}";
    let (body, frontmatter) = split_frontmatter("script", script.to_owned()).unwrap();
    let frontmatter = frontmatter.unwrap();
    let (name, desc) = resolve_display_metadata("script", Some(&frontmatter), &body);

    let template = Template::new("script", name, desc, vec!["a".to_owned()], Some(&frontmatter));

    assert!(template.is_ok());
    assert_eq!(value_text(template.unwrap().resolved().get_named("prefix").unwrap()), "a");
}

#[test]
fn get_all_templates_never_errors_for_required_arguments() {
    let script = "+++\nargs = [{ name = \"prefix\", type = \"string\", required = true }]\n+++\n{{ prefix }}";
    let (body, frontmatter) = split_frontmatter("script", script.to_owned()).unwrap();
    let frontmatter = frontmatter.unwrap();
    let (name, desc) = resolve_display_metadata("script", Some(&frontmatter), &body);

    let template = Template::for_display(name, desc, frontmatter.args_vec());

    assert_eq!(template.declared_args().len(), 1);
}

#[test]
fn description_comes_only_from_frontmatter_when_present() {
    let script = "+++\ndescription = \"From frontmatter.\"\n+++\n{# Leading comment #}\n{{ artist }}";
    let (body, frontmatter) = split_frontmatter("script", script.to_owned()).unwrap();

    let (_, desc) = resolve_display_metadata("script", frontmatter.as_ref(), &body);

    assert_eq!(desc.as_ref(), Some(&"From frontmatter.".to_owned()));
}

#[test]
fn frontmatter_without_description_ignores_leading_comment() {
    let script = "+++\nname = \"N\"\n+++\n{# Leading comment #}\n{{ artist }}";
    let (body, frontmatter) = split_frontmatter("script", script.to_owned()).unwrap();

    let (_, desc) = resolve_display_metadata("script", frontmatter.as_ref(), &body);

    assert_eq!(desc, None);
}

#[test]
fn display_name_falls_back_to_lookup_name_without_override() {
    let (body, frontmatter) = split_frontmatter("script", "{{ artist }}".to_owned()).unwrap();
    let (name, desc) = resolve_display_metadata("script", frontmatter.as_ref(), &body);

    let template = Template::new("script", name, desc, Vec::new(), frontmatter.as_ref()).unwrap();

    assert_eq!(template.name(), "script");
}

#[test]
fn display_name_uses_frontmatter_override() {
    let script = "+++\nname = \"Pretty Name\"\n+++\n{{ artist }}";
    let (body, frontmatter) = split_frontmatter("script", script.to_owned()).unwrap();
    let (name, desc) = resolve_display_metadata("script", frontmatter.as_ref(), &body);

    let template = Template::new("script", name, desc, Vec::new(), frontmatter.as_ref()).unwrap();

    assert_eq!(template.name(), "Pretty Name");
}

#[test]
fn new_without_frontmatter_keeps_raw_positional_arguments() {
    let template = Template::new("t", "t".to_owned(), None, vec!["raw:value".to_owned()], None).unwrap();

    assert_eq!(template.declared_args().len(), 0);
    assert!(matches!(&template.resolved().positional()[0], ArgValue::Str(s) if s == "raw:value"));
}

#[test]
fn new_with_frontmatter_errors_on_missing_required_argument() {
    let frontmatter =
        parse_frontmatter("args = [{ name = \"prefix\", type = \"string\", required = true }]", "t")
            .unwrap();

    let error = Template::new("t", "t".to_owned(), None, Vec::new(), Some(&frontmatter)).unwrap_err();

    assert!(matches!(error, TFMTError::MissingRequiredArgument(_, _, _)));
}

#[test]
fn for_display_never_resolves_arguments() {
    let frontmatter =
        parse_frontmatter("args = [{ name = \"prefix\", type = \"string\", required = true }]", "t")
            .unwrap();

    let template = Template::for_display("t".to_owned(), None, frontmatter.args_vec());

    assert_eq!(template.declared_args().len(), 1);
}
