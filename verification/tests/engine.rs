use seedwing_policy::config::Of;
use seedwing_policy::eval::{evaluate, FunctionHolder, Pattern, World};
use seedwing_policy::format::Format;
use seedwing_policy::maven::{split_str, GAV};
use seedwing_policy::protocol::{Binding, Bindings, ExecutionContext, Function};
use seedwing_policy::rationale::{EvaluationResult, Rationale, Severity};
use seedwing_policy::render::{rationale_to_tagged_json, FormatError};
use seedwing_policy::report::{reason, support, Report};
use seedwing_policy::response::Response;
use seedwing_policy::value::Value;

fn gav_world() -> World {
    let mut world = World::new();
    world.register(String::from("maven::GAV"), FunctionHolder::Maven(GAV));
    world.define(
        String::from("test"),
        Pattern::Function(String::from("maven::GAV"), Vec::new()),
    );
    world
}

#[test]
fn test_gav() {
    let world = gav_world();
    let ctx = ExecutionContext::new();
    let input = Value::Str(String::from("org.quarkus:quarkus:2.3"));
    let result = world.evaluate("test", &input, &ctx).unwrap();
    assert!(result.satisfied());
    let expected = Value::Record(vec![
        (String::from("groupId"), Value::Str(String::from("org.quarkus"))),
        (String::from("artifactId"), Value::Str(String::from("quarkus"))),
        (String::from("version"), Value::Str(String::from("2.3"))),
        (String::from("packaging"), Value::Str(String::from("jar"))),
    ]);
    match result.output() {
        Some(out) => assert!(out.value_eq(&expected)),
        None => panic!("expected a transformed output"),
    }
}

#[test]
fn gav_has_no_classifier_for_three_segments() {
    let world = gav_world();
    let ctx = ExecutionContext::new();
    let input = Value::Str(String::from("org.quarkus:quarkus:2.3"));
    let result = world.evaluate("test", &input, &ctx).unwrap();
    match result.output() {
        Some(Value::Record(fields)) => {
            assert_eq!(fields.len(), 4);
            assert!(fields.iter().all(|(k, _)| k != "classifier"));
        }
        _ => panic!("expected a record output"),
    }
}

#[test]
fn gav_five_segments_has_classifier() {
    let world = gav_world();
    let ctx = ExecutionContext::new();
    let input = Value::Str(String::from("g:a:1:war:sources"));
    let result = world.evaluate("test", &input, &ctx).unwrap();
    assert!(result.satisfied());
    let expected = Value::Record(vec![
        (String::from("groupId"), Value::Str(String::from("g"))),
        (String::from("artifactId"), Value::Str(String::from("a"))),
        (String::from("version"), Value::Str(String::from("1"))),
        (String::from("packaging"), Value::Str(String::from("war"))),
        (String::from("classifier"), Value::Str(String::from("sources"))),
    ]);
    assert!(result.output().as_ref().unwrap().value_eq(&expected));
}

#[test]
fn gav_two_segments_is_error() {
    let world = gav_world();
    let ctx = ExecutionContext::new();
    let input = Value::Str(String::from("only-two:parts"));
    let result = world.evaluate("test", &input, &ctx).unwrap();
    assert!(!result.satisfied());
    assert_eq!(result.severity, Severity::Error);
    assert!(result.output().is_none());
}

#[test]
fn gav_rejects_non_string_input() {
    let world = gav_world();
    let ctx = ExecutionContext::new();
    let result = world.evaluate("test", &Value::Int(3), &ctx).unwrap();
    assert!(!result.satisfied());
    assert!(matches!(result.rationale, Rationale::InvalidArgument(_)));
}

#[test]
fn config_of_absent_key_is_error() {
    let mut world = World::new();
    world.register(String::from("config::of"), FunctionHolder::Config(Of));
    world.define(
        String::from("needs-config"),
        Pattern::Function(
            String::from("config::of"),
            vec![(
                String::from("key"),
                Binding::Literal(Value::Str(String::from("absent"))),
            )],
        ),
    );
    let ctx = ExecutionContext::new();
    let result = world
        .evaluate("needs-config", &Value::Str(String::from("x")), &ctx)
        .unwrap();
    assert!(!result.satisfied());
    assert_eq!(result.severity, Severity::Error);
    assert!(result.output().is_none());
}

#[test]
fn config_of_present_key_transforms() {
    let mut world = World::new();
    world.register(String::from("config::of"), FunctionHolder::Config(Of));
    world.define(
        String::from("needs-config"),
        Pattern::Function(
            String::from("config::of"),
            vec![(
                String::from("key"),
                Binding::Literal(Value::Str(String::from("answer"))),
            )],
        ),
    );
    let mut ctx = ExecutionContext::new();
    ctx.config.push(String::from("answer"), Value::Int(42));
    let result = world
        .evaluate("needs-config", &Value::Str(String::from("x")), &ctx)
        .unwrap();
    assert!(result.satisfied());
    assert!(result.output().as_ref().unwrap().value_eq(&Value::Int(42)));
}

#[test]
fn config_of_direct_call_requires_key_binding() {
    let ctx = ExecutionContext::new();
    let bindings = Bindings::new();
    assert!(Of.call(&Value::Null, &ctx, &bindings).is_err());
    let mut malformed = Bindings::new();
    malformed.push(String::from("key"), Binding::Literal(Value::Int(1)));
    assert!(Of.call(&Value::Null, &ctx, &malformed).is_err());
}

#[test]
fn malformed_key_binding_faults_the_evaluation() {
    let mut world = World::new();
    world.register(String::from("config::of"), FunctionHolder::Config(Of));
    world.define(
        String::from("bad-binding"),
        Pattern::Function(
            String::from("config::of"),
            vec![(
                String::from("key"),
                Binding::PatternRef(String::from("elsewhere")),
            )],
        ),
    );
    let ctx = ExecutionContext::new();
    assert!(world.evaluate("bad-binding", &Value::Null, &ctx).is_err());
}

#[test]
fn missing_declared_parameter_is_invalid_argument() {
    let mut world = World::new();
    world.register(String::from("config::of"), FunctionHolder::Config(Of));
    world.define(
        String::from("no-args"),
        Pattern::Function(String::from("config::of"), Vec::new()),
    );
    let ctx = ExecutionContext::new();
    let result = world.evaluate("no-args", &Value::Null, &ctx).unwrap();
    assert!(!result.satisfied());
    assert!(matches!(&result.rationale, Rationale::InvalidArgument(n) if n == "key"));
}

fn fubar_world() -> World {
    let mut world = World::new();
    world.define(
        String::from("test::fubar"),
        Pattern::Or(vec![
            Pattern::Const(Value::Str(String::from("foo"))),
            Pattern::Const(Value::Str(String::from("bar"))),
        ]),
    );
    world
}

#[test]
fn unknown_field() {
    let world = fubar_world();
    let ctx = ExecutionContext::new();
    let result = world
        .evaluate("test::fubar", &Value::Str(String::from("foo")), &ctx)
        .unwrap();
    assert!(Format::Json
        .format(&result, true, Some(String::from("name")))
        .is_ok());
    assert!(Format::Json
        .format(&result, true, Some(String::from("fart")))
        .is_err());
    assert!(Format::Json.format(&result, true, None).is_ok());
}

#[test]
fn or_pattern_filtered_to_name_only() {
    let world = fubar_world();
    let ctx = ExecutionContext::new();
    let result = world
        .evaluate("test::fubar", &Value::Str(String::from("foo")), &ctx)
        .unwrap();
    assert!(result.satisfied());
    let rendered = Format::Json
        .format(&result, true, Some(String::from("name")))
        .unwrap();
    assert_eq!(rendered, "{\"name\":\"test::fubar\"}");
    let err = Format::Json
        .format(&result, true, Some(String::from("fart")))
        .unwrap_err();
    assert!(matches!(err, FormatError::InvalidViewField));
}

#[test]
fn or_pattern_misses_both_alternatives() {
    let world = fubar_world();
    let ctx = ExecutionContext::new();
    let result = world
        .evaluate("test::fubar", &Value::Str(String::from("baz")), &ctx)
        .unwrap();
    assert!(!result.satisfied());
    assert_eq!(result.severity, Severity::Error);
}

#[test]
fn satisfied_constants() {
    assert!(Rationale::Anything.satisfied());
    assert!(!Rationale::Nothing.satisfied());
    assert!(Rationale::Object(Vec::new()).satisfied());
    assert!(Rationale::List(Vec::new()).satisfied());
    assert!(!Rationale::NotAnObject.satisfied());
    assert!(!Rationale::NotAList.satisfied());
    assert!(!Rationale::MissingField(String::from("x")).satisfied());
    assert!(!Rationale::InvalidArgument(String::from("x")).satisfied());
    assert!(Rationale::Const(true).satisfied());
    assert!(!Rationale::Const(false).satisfied());
    assert!(Rationale::Primordial(true).satisfied());
    assert!(Rationale::Expression(true).satisfied());
    assert!(Rationale::Function(true, None, Vec::new()).satisfied());
    assert!(!Rationale::Function(false, None, Vec::new()).satisfied());
}

fn leaf(rationale: Rationale) -> EvaluationResult {
    let severity = if rationale.satisfied() {
        Severity::Nominal
    } else {
        Severity::Error
    };
    EvaluationResult {
        name: None,
        input: None,
        output: None,
        severity,
        rationale,
    }
}

#[test]
fn one_bad_child_spoils_the_object() {
    let good = leaf(Rationale::Const(true));
    let bad = leaf(Rationale::Const(false));
    let obj = Rationale::Object(vec![
        (String::from("a"), good),
        (String::from("b"), bad),
    ]);
    assert!(!obj.satisfied());
    let all_good = Rationale::List(vec![
        leaf(Rationale::Const(true)),
        leaf(Rationale::Anything),
    ]);
    assert!(all_good.satisfied());
}

#[test]
fn refinement_without_secondary_is_unsatisfied() {
    let primary = leaf(Rationale::Anything);
    assert!(primary.satisfied());
    let refinement = Rationale::Refinement(Box::new(primary), None);
    assert!(!refinement.satisfied());
}

#[test]
fn chain_short_circuit_length() {
    let mut world = World::new();
    world.define(
        String::from("pipeline"),
        Pattern::Chain(vec![
            Pattern::Anything,
            Pattern::Nothing,
            Pattern::Anything,
        ]),
    );
    let ctx = ExecutionContext::new();
    let result = world
        .evaluate("pipeline", &Value::Int(1), &ctx)
        .unwrap();
    assert!(!result.satisfied());
    match &result.rationale {
        Rationale::Chain(terms) => assert_eq!(terms.len(), 2),
        _ => panic!("expected a chain rationale"),
    }
}

#[test]
fn reason_texts() {
    assert_eq!(
        reason(&Rationale::Anything),
        "anything is satisfied by anything"
    );
    assert_eq!(reason(&Rationale::Nothing), "");
    assert_eq!(reason(&Rationale::NotAnObject), "not an object");
    assert_eq!(reason(&Rationale::NotAList), "not a list");
    assert_eq!(
        reason(&Rationale::MissingField(String::from("version"))),
        "missing field: version"
    );
    assert_eq!(
        reason(&Rationale::InvalidArgument(String::from("key"))),
        "invalid argument: key"
    );
    assert_eq!(
        reason(&Rationale::Object(Vec::new())),
        "because all fields were satisfied"
    );
    assert_eq!(
        reason(&Rationale::List(vec![leaf(Rationale::Const(false))])),
        "because not all members were satisfied"
    );
    assert_eq!(
        reason(&Rationale::Chain(Vec::new())),
        "because the chain was satisfied"
    );
}

#[test]
fn support_flattens_pre_order() {
    let obj = Rationale::Object(vec![(
        String::from("f"),
        leaf(Rationale::MissingField(String::from("f"))),
    )]);
    let lines = support(&obj);
    assert_eq!(
        lines,
        vec![
            String::from("because not all fields were satisfied"),
            String::from("missing field: f"),
        ]
    );
}

#[test]
fn report_of_missing_field() {
    let obj = Rationale::Object(vec![(
        String::from("f"),
        leaf(Rationale::MissingField(String::from("f"))),
    )]);
    let er = EvaluationResult {
        name: Some(String::from("shape")),
        input: Some(Value::Null),
        output: None,
        severity: Severity::Error,
        rationale: obj,
    };
    let report = Report::new(&er);
    assert_eq!(report.name.as_deref(), Some("shape"));
    assert!(!report.satisfied);
    assert_eq!(report.reason, "because not all fields were satisfied");
    assert_eq!(report.rationale.len(), 2);
}

#[test]
fn collapse_is_idempotent_in_serialized_form() {
    let world = gav_world();
    let ctx = ExecutionContext::new();
    let input = Value::Str(String::from("only-two:parts"));
    let result = world.evaluate("test", &input, &ctx).unwrap();
    let response = Response::new(&result);
    let once = response.collapse(Severity::Error);
    let twice = once.collapse(Severity::Error);
    let json_once = Format::Json.format(&result, true, None).unwrap();
    assert!(!json_once.is_empty());
    let view_once = once.as_view();
    let view_twice = twice.as_view();
    assert_eq!(view_once.rationale, view_twice.rationale);
    assert_eq!(view_once.reason, view_twice.reason);
    assert_eq!(view_once.satisfied, view_twice.satisfied);
}

#[test]
fn collapse_prunes_satisfied_detail() {
    let world = gav_world();
    let ctx = ExecutionContext::new();
    let input = Value::Str(String::from("org.quarkus:quarkus:2.3"));
    let result = world.evaluate("test", &input, &ctx).unwrap();
    let full = Response::new(&result);
    let collapsed = full.collapse(Severity::Error);
    assert_eq!(collapsed.satisfied, full.satisfied);
}

#[test]
fn json_rendering_includes_all_fields_by_default() {
    let world = fubar_world();
    let ctx = ExecutionContext::new();
    let result = world
        .evaluate("test::fubar", &Value::Str(String::from("foo")), &ctx)
        .unwrap();
    let rendered = Format::Json.format(&result, false, None).unwrap();
    assert!(rendered.starts_with("{\"name\":\"test::fubar\",\"input\":\"foo\","));
    assert!(rendered.contains("\"satisfied\":true"));
    assert!(rendered.contains("\"reason\":"));
    assert!(rendered.contains("\"rationale\":["));
}

#[test]
fn yaml_rendering_quotes_scalars_that_need_it() {
    let er = EvaluationResult {
        name: Some(String::from("true")),
        input: Some(Value::Int(-7)),
        output: None,
        severity: Severity::Nominal,
        rationale: Rationale::Anything,
    };
    let rendered = Format::Yaml.format(&er, false, None).unwrap();
    assert!(rendered.starts_with("name: 'true'\n"));
    assert!(rendered.contains("input: -7\n"));
    assert!(rendered.contains("satisfied: true\n"));
}

#[test]
fn pretty_json_spreads_entries_over_lines() {
    let er = EvaluationResult {
        name: None,
        input: Some(Value::List(vec![Value::Int(1), Value::Bool(false), Value::Null])),
        output: None,
        severity: Severity::Nominal,
        rationale: Rationale::Anything,
    };
    let rendered = Format::JsonPretty.format(&er, false, None).unwrap();
    assert!(rendered.starts_with("{\n  \"name\":null,\n  \"input\":[1,false,null],"));
    assert!(rendered.ends_with("\n}"));
}

#[test]
fn html_rendering_escapes_markup() {
    let er = EvaluationResult {
        name: None,
        input: None,
        output: None,
        severity: Severity::Error,
        rationale: Rationale::MissingField(String::from("a<b")),
    };
    let rendered = Format::Html.format(&er, false, None).unwrap();
    assert!(rendered.starts_with("<div class=\"rationale\"><ul>"));
    assert!(rendered.contains("<li>missing field: a&lt;b</li>"));
}

#[test]
fn extreme_integers_render_exactly() {
    let er = EvaluationResult {
        name: None,
        input: Some(Value::List(vec![
            Value::Int(i64::MIN),
            Value::Int(i64::MAX),
            Value::Int(0),
        ])),
        output: None,
        severity: Severity::Nominal,
        rationale: Rationale::Anything,
    };
    let rendered = Format::Json
        .format(&er, false, Some(String::from("input")))
        .unwrap();
    assert_eq!(
        rendered,
        "{\"input\":[-9223372036854775808,9223372036854775807,0]}"
    );
}

#[test]
fn world_lookup_finds_registered_patterns() {
    let world = fubar_world();
    assert!(world.lookup("test::fubar").is_some());
    assert!(world.lookup("test::missing").is_none());
}

#[test]
fn content_types() {
    assert_eq!(Format::Html.content_type(), "text/html; charset=utf-8");
    assert_eq!(Format::Json.content_type(), "application/json");
    assert_eq!(Format::JsonPretty.content_type(), "application/json");
    assert_eq!(Format::Yaml.content_type(), "application/yaml");
}

#[test]
fn format_tokens() {
    assert_eq!(Format::from(String::from("json")), Format::Json);
    assert_eq!(Format::from(String::from("application/json")), Format::Json);
    assert_eq!(Format::from(String::from("pretty")), Format::JsonPretty);
    assert_eq!(Format::from(String::from("yaml")), Format::Yaml);
    assert_eq!(Format::from(String::from("application/x-yaml")), Format::Yaml);
    assert_eq!(Format::from(String::from("text/x-yaml")), Format::Yaml);
    assert_eq!(Format::from(String::from("anything-else")), Format::Html);
}

#[test]
fn format_tokens_ignore_ascii_case() {
    assert_eq!(Format::from(String::from("JSON")), Format::Json);
    assert_eq!(Format::from(String::from("Application/Json")), Format::Json);
    assert_eq!(Format::from(String::from("Pretty")), Format::JsonPretty);
    assert_eq!(Format::from(String::from("YAML")), Format::Yaml);
    assert_eq!(Format::from(String::from("Text/X-Yaml")), Format::Yaml);
}

#[test]
fn tagged_rationale_serialization() {
    assert_eq!(
        rationale_to_tagged_json(&Rationale::Anything).unwrap(),
        "\"Anything\""
    );
    assert_eq!(
        rationale_to_tagged_json(&Rationale::Nothing).unwrap(),
        "\"Nothing\""
    );
    assert_eq!(
        rationale_to_tagged_json(&Rationale::Const(true)).unwrap(),
        "null"
    );
    assert_eq!(
        rationale_to_tagged_json(&Rationale::NotAnObject).unwrap(),
        "\"not an object\""
    );
    let obj = Rationale::Object(vec![(
        String::from("f"),
        leaf(Rationale::MissingField(String::from("f"))),
    )]);
    assert_eq!(
        rationale_to_tagged_json(&obj).unwrap(),
        "{\"Object\":{\"f\":\"missing field: f\"}}"
    );
    let chain = Rationale::Chain(vec![
        leaf(Rationale::Const(true)),
        leaf(Rationale::NotAList),
    ]);
    assert_eq!(
        rationale_to_tagged_json(&chain).unwrap(),
        "{\"Chain\":[null,\"not a list\"]}"
    );
    let or = Rationale::Function(true, None, vec![leaf(Rationale::Anything)]);
    assert_eq!(
        rationale_to_tagged_json(&or).unwrap(),
        "{\"Function\":[\"Anything\"]}"
    );
}

#[test]
fn split_on_separator_cases() {
    assert_eq!(
        split_str("a:b:c", ':'),
        vec![String::from("a"), String::from("b"), String::from("c")]
    );
    assert_eq!(split_str("abc", ':'), vec![String::from("abc")]);
    assert_eq!(split_str("", ':'), vec![String::from("")]);
    assert_eq!(
        split_str(":x:", ':'),
        vec![String::from(""), String::from("x"), String::from("")]
    );
}

#[test]
fn evaluate_reports_shape_mismatches() {
    let ctx = ExecutionContext::new();
    let world = World::new();
    let obj_pattern = Pattern::Object(vec![(String::from("a"), Pattern::Anything)]);
    let not_an_object = evaluate(&obj_pattern, &Value::Int(1), &ctx, &world).unwrap();
    assert!(!not_an_object.satisfied());
    assert!(matches!(not_an_object.rationale, Rationale::NotAnObject));

    let list_pattern = Pattern::List(Box::new(Pattern::Anything));
    let not_a_list = evaluate(&list_pattern, &Value::Int(1), &ctx, &world).unwrap();
    assert!(!not_a_list.satisfied());
    assert!(matches!(not_a_list.rationale, Rationale::NotAList));

    let missing = evaluate(
        &obj_pattern,
        &Value::Record(vec![(String::from("b"), Value::Null)]),
        &ctx,
        &world,
    )
    .unwrap();
    assert!(!missing.satisfied());
    match &missing.rationale {
        Rationale::Object(fields) => {
            assert_eq!(fields.len(), 1);
            assert!(matches!(&fields[0].1.rationale, Rationale::MissingField(n) if n == "a"));
        }
        _ => panic!("expected an object rationale"),
    }
}

#[test]
fn refinement_pipes_primary_output() {
    let mut world = World::new();
    world.register(String::from("maven::GAV"), FunctionHolder::Maven(GAV));
    world.define(
        String::from("refined"),
        Pattern::Refinement(
            Box::new(Pattern::Function(String::from("maven::GAV"), Vec::new())),
            Some(Box::new(Pattern::Object(vec![(
                String::from("groupId"),
                Pattern::Const(Value::Str(String::from("g"))),
            )]))),
        ),
    );
    let ctx = ExecutionContext::new();
    let result = world
        .evaluate("refined", &Value::Str(String::from("g:a:1")), &ctx)
        .unwrap();
    assert!(result.satisfied());
    let other = world
        .evaluate("refined", &Value::Str(String::from("x:a:1")), &ctx)
        .unwrap();
    assert!(!other.satisfied());
}
