use eventscript::errors::LoadError;
use eventscript::errors::LoadErrorKind;
use eventscript::errors::RuntimeError;
use eventscript::errors::RuntimeErrorKind;
use eventscript::grouping::split;
use eventscript::grouping::EventPipeline;
use eventscript::preparse::pre_parse;
use eventscript::tokenizer::tokenize;
use eventscript::vm::VM;

fn load(lines: &[&str]) -> Result<VM, LoadError> {
    let owned: Vec<String> = lines.iter().map(|l| l.to_string()).collect();
    let items = pre_parse(owned)?;
    let (tokens, _warnings) = tokenize(items)?;
    let listeners = split(tokens);
    Ok(VM { pipeline: EventPipeline { listeners } })
}

fn run(lines: &[&str]) -> Result<Vec<String>, RuntimeError> {
    let mut vm = load(lines).expect("script failed to load");
    vm.start()
}

fn run_err(lines: &[&str]) -> RuntimeErrorKind {
    run(lines).expect_err("run unexpectedly succeeded").kind
}

#[test]
fn print_string_literal() {
    let out = run(&["OnStart {", "#Print \"hi\";", "}"]).unwrap();
    assert_eq!(out, vec!["hi".to_string()]);
}

#[test]
fn pipe_arithmetic_result_and_print() {
    let out = run(&["OnStart {", "result(i64) <- #+ 2 3;", "#Print result;", "}"]).unwrap();
    assert_eq!(out, vec!["5".to_string()]);
}

#[test]
fn unmatched_open_brace_fails_load() {
    let e = load(&["OnStart {", "#Print \"hi\";"]).expect_err("load should fail");
    assert_eq!(e.kind, LoadErrorKind::UnbalancedScope);
    assert_eq!(e.pos, None);
}

#[test]
fn unmatched_close_brace_fails_load() {
    let e = load(&["OnStart", "}"]).expect_err("load should fail");
    assert_eq!(e.kind, LoadErrorKind::UnbalancedScope);
    assert!(e.pos.is_some());
}

#[test]
fn reassigning_string_to_int_without_cast_fails() {
    let e = run(&["OnStart {", "x(i32) = 5;", "x = \"a\";", "}"]);
    let err = e.expect_err("type mismatch expected");
    assert_eq!(err.kind, RuntimeErrorKind::TypeMismatch);
    let pos = err.pos.expect("position expected");
    assert_eq!(pos.line, 3);
}

#[test]
fn two_listener_blocks_both_run_in_order() {
    let out = run(&[
        "OnStart {",
        "#Print \"first\";",
        "}",
        "OnStart {",
        "#Print \"second\";",
        "}",
    ])
    .unwrap();
    assert_eq!(out, vec!["first".to_string(), "second".to_string()]);
}

#[test]
fn division_result() {
    let out = run(&["OnStart {", "result(i64) <- #/ 7 2;", "#Print result;", "}"]).unwrap();
    assert_eq!(out, vec!["3".to_string()]);
}

#[test]
fn division_by_zero_is_fatal() {
    assert_eq!(
        run_err(&["OnStart {", "result(i64) <- #/ 1 0;", "}"]),
        RuntimeErrorKind::DivisionByZero
    );
}

#[test]
fn modulo_result() {
    let out = run(&["OnStart {", "result(i64) <- #% 7 2;", "#Print result;", "}"]).unwrap();
    assert_eq!(out, vec!["1".to_string()]);
}

#[test]
fn modulo_by_zero_is_fatal() {
    assert_eq!(
        run_err(&["OnStart {", "result(i64) <- #% 1 0;", "}"]),
        RuntimeErrorKind::DivisionByZero
    );
}

#[test]
fn subtraction_and_multiplication() {
    let out = run(&[
        "OnStart {",
        "result(i64) <- #- 2 5;",
        "#Print result;",
        "result <- #* 6 7;",
        "#Print result;",
        "}",
    ])
    .unwrap();
    assert_eq!(out, vec!["-3".to_string(), "42".to_string()]);
}

#[test]
fn cast_string_to_int_succeeds() {
    let out = run(&["OnStart {", "s(string) = \"5\";", "n(i64) <= s;", "#Print n;", "}"])
        .unwrap();
    assert_eq!(out, vec!["5".to_string()]);
}

#[test]
fn same_tags_assign_without_cast() {
    let out = run(&["OnStart {", "a(i32) = 1;", "b(i32) = 2;", "a <- b;", "#Print a;", "}"])
        .unwrap();
    assert_eq!(out, vec!["2".to_string()]);
}

#[test]
fn differing_tags_without_cast_fail() {
    assert_eq!(
        run_err(&["OnStart {", "s(string) = \"5\";", "n(i64) <- s;", "}"]),
        RuntimeErrorKind::TypeMismatch
    );
}

#[test]
fn cast_of_unparsable_text_fails() {
    assert_eq!(
        run_err(&["OnStart {", "s(string) = \"abc\";", "n(i64) <= s;", "}"]),
        RuntimeErrorKind::CastFailure
    );
}

#[test]
fn null_into_nullable_type() {
    let out = run(&["OnStart {", "x(?i32) = null;", "#Print x;", "}"]).unwrap();
    assert_eq!(out, vec!["null".to_string()]);
}

#[test]
fn null_into_non_nullable_type_fails() {
    assert_eq!(
        run_err(&["OnStart {", "x(i32) = null;", "}"]),
        RuntimeErrorKind::NullNotAllowed
    );
}

#[test]
fn null_reassignment_respects_nullability() {
    assert_eq!(
        run_err(&["OnStart {", "x(i32) = 5;", "x = null;", "}"]),
        RuntimeErrorKind::NullNotAllowed
    );
    let out = run(&["OnStart {", "x(?i32) = 5;", "x = null;", "#Print x;", "}"]).unwrap();
    assert_eq!(out, vec!["null".to_string()]);
}

#[test]
fn outer_scope_wins_name_lookup() {
    let out = run(&[
        "OnStart {",
        "x(i32) = 1;",
        "{",
        "x(i32) = 2;",
        "#Print x;",
        "}",
        "}",
    ])
    .unwrap();
    assert_eq!(out, vec!["1".to_string()]);
}

#[test]
fn redeclaration_in_same_scope_fails() {
    assert_eq!(
        run_err(&["OnStart {", "x(i32) = 1;", "x(i32) = 2;", "}"]),
        RuntimeErrorKind::VariableAlreadyExists
    );
}

#[test]
fn unknown_event_is_fatal() {
    assert_eq!(
        run_err(&["OnStart {", "#Nope;", "}"]),
        RuntimeErrorKind::UnknownEvent
    );
}

#[test]
fn wrong_parameter_count_is_fatal() {
    assert_eq!(
        run_err(&["OnStart {", "result(i64) <- #+ 1;", "}"]),
        RuntimeErrorKind::ParamCountMismatch
    );
}

#[test]
fn non_numeric_parameter_is_rejected() {
    assert_eq!(
        run_err(&["OnStart {", "s(string) = \"a\";", "result(i64) <- #+ s s;", "}"]),
        RuntimeErrorKind::InvalidParameter
    );
}

#[test]
fn assigning_unknown_variable_fails() {
    assert_eq!(
        run_err(&["OnStart {", "x = 5;", "}"]),
        RuntimeErrorKind::VariableNotFound
    );
}

#[test]
fn unknown_declared_type_fails() {
    assert_eq!(
        run_err(&["OnStart {", "x(widget) = 5;", "}"]),
        RuntimeErrorKind::UnknownType
    );
}

#[test]
fn float_declarations_are_not_supported() {
    assert_eq!(
        run_err(&["OnStart {", "x(float) = 1;", "}"]),
        RuntimeErrorKind::NotSupported
    );
    assert_eq!(
        run_err(&["OnStart {", "x(double) = 1;", "}"]),
        RuntimeErrorKind::NotSupported
    );
}

#[test]
fn self_referential_dynamic_source_not_supported() {
    assert_eq!(
        run_err(&["OnStart {", "x(string) <- OnStart;", "}"]),
        RuntimeErrorKind::NotSupported
    );
}

#[test]
fn missing_event_field_fails() {
    assert_eq!(
        run_err(&["OnStart {", "ev(event) <- #+ 1 2;", "missing(i64) <- ev;", "}"]),
        RuntimeErrorKind::EventFieldNotFound
    );
}

#[test]
fn event_field_extraction_by_target_name() {
    let out = run(&[
        "OnStart {",
        "ev(event) <- #+ 20 22;",
        "result(i64) <= ev;",
        "#Print result;",
        "}",
    ])
    .unwrap();
    assert_eq!(out, vec!["42".to_string()]);
}

#[test]
fn print_char_and_bool_variables() {
    let out = run(&[
        "OnStart {",
        "c(char) = A;",
        "#Print c;",
        "b(bool) = true;",
        "#Print b;",
        "}",
    ])
    .unwrap();
    assert_eq!(out, vec!["A".to_string(), "true".to_string()]);
}

#[test]
fn fused_string_with_spaces() {
    let out = run(&["OnStart {", "#Print \"hello there world\";", "}"]).unwrap();
    assert_eq!(out, vec!["hello there world".to_string()]);
}

#[test]
fn unterminated_string_fails_pre_parse() {
    let e = load(&["OnStart {", "#Print \"oops;", "}"]).expect_err("load should fail");
    assert_eq!(e.kind, LoadErrorKind::UnterminatedString);
    assert!(e.pos.is_some());
}

#[test]
fn stray_semicolon_fails_load() {
    let e = load(&["OnStart {", "stray;", "}"]).expect_err("load should fail");
    assert_eq!(e.kind, LoadErrorKind::UnexpectedSemicolon);
}

#[test]
fn missing_semicolon_fails_load() {
    let e = load(&["OnStart {", "x(i32) = 5 }", "}"]).expect_err("load should fail");
    assert_eq!(e.kind, LoadErrorKind::MissingSemicolon);
}

#[test]
fn double_initialization_fails_load() {
    let e = load(&["OnStart {", "x(i32) = 5; = 6;", "}"]).expect_err("load should fail");
    assert_eq!(e.kind, LoadErrorKind::DoubleInitialization);
}

#[test]
fn assignment_without_target_fails_load() {
    let e = load(&["OnStart {", "= 5;", "}"]).expect_err("load should fail");
    assert_eq!(e.kind, LoadErrorKind::MissingVariableName);
}

#[test]
fn dynamic_assignment_without_target_fails_load() {
    let e = load(&["OnStart {", "<- 5;", "}"]).expect_err("load should fail");
    assert_eq!(e.kind, LoadErrorKind::MissingDynamicTarget);
}

#[test]
fn empty_event_name_fails_load() {
    let e = load(&["OnStart {", "#;", "}"]).expect_err("load should fail");
    assert_eq!(e.kind, LoadErrorKind::MissingEventName);
}

#[test]
fn tokens_outside_listeners_are_dropped() {
    let out = run(&["Orphan {", "#Print \"ghost\";", "}", "OnStart {", "#Print \"ok\";", "}"])
        .unwrap();
    assert_eq!(out, vec!["ok".to_string()]);
}

#[test]
fn integer_bounds_per_declared_width() {
    let out = run(&["OnStart {", "x(u8) = 255;", "#Print x;", "}"]).unwrap();
    assert_eq!(out, vec!["255".to_string()]);
    assert_eq!(
        run_err(&["OnStart {", "x(u8) = 256;", "}"]),
        RuntimeErrorKind::TypeMismatch
    );
    assert_eq!(
        run_err(&["OnStart {", "x(u8) = -1;", "}"]),
        RuntimeErrorKind::TypeMismatch
    );
    let out = run(&["OnStart {", "x(i8) = -128;", "#Print x;", "}"]).unwrap();
    assert_eq!(out, vec!["-128".to_string()]);
}

#[test]
fn decimal_parse_edges() {
    assert_eq!(eventscript::numbers::parse_int("+5", 0, 255), Some(5));
    assert_eq!(eventscript::numbers::parse_int("-0", -128, 127), Some(0));
    assert_eq!(eventscript::numbers::parse_int("-0", 0, 255), None);
    assert_eq!(eventscript::numbers::parse_int("007", 0, 255), Some(7));
    assert_eq!(eventscript::numbers::parse_int("", 0, 255), None);
    assert_eq!(eventscript::numbers::parse_int("12a", 0, 255), None);
    assert_eq!(
        eventscript::numbers::parse_int("-170141183460469231731687303715884105728", i128::MIN, i128::MAX),
        Some(i128::MIN)
    );
}

#[test]
fn decimal_render_edges() {
    assert_eq!(eventscript::numbers::render_i128(0), "0");
    assert_eq!(eventscript::numbers::render_i128(-5), "-5");
    assert_eq!(
        eventscript::numbers::render_i128(i128::MIN),
        "-170141183460469231731687303715884105728"
    );
}

#[test]
fn arithmetic_overflow_is_fatal() {
    assert_eq!(
        run_err(&[
            "OnStart {",
            "a(i64) = 9223372036854775807;",
            "result(event) <- #* a a;",
            "result2(event) <- #* result result;",
            "}",
        ]),
        RuntimeErrorKind::ArithmeticOverflow
    );
}

#[test]
fn diagnostics_render_position() {
    let pos = eventscript::position::Position::new(3, 14);
    assert_eq!(
        eventscript::diag::error_str("bad", pos),
        "ERROR: bad (at 3:14)"
    );
    assert_eq!(
        eventscript::diag::runtime_error_str("worse", pos),
        "RUNTIME ERROR: worse (at 3:14)"
    );
    assert_eq!(
        eventscript::diag::error_unknown_pos("bad".to_string()),
        "ERROR: bad (unknown position)"
    );
}

#[test]
fn positions_accumulate_prior_word_lengths() {
    let items = pre_parse(vec!["  a bb  c".to_string()]).unwrap();
    assert_eq!(items.len(), 3);
    assert_eq!(items[0].0.line, 1);
    assert_eq!(items[0].0.index, 0);
    assert_eq!(items[1].0.index, 2);
    assert_eq!(items[2].0.index, 5);
}

#[test]
fn listener_name_warning_is_collected() {
    let lines = vec!["OnStart{".to_string(), "{".to_string(), "}".to_string()];
    let items = pre_parse(lines).unwrap();
    let (_tokens, warnings) = tokenize(items).unwrap();
    assert_eq!(warnings.len(), 1);
    assert_eq!(warnings[0].1, "OnStart{");
}
