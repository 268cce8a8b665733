use optpipeline::process;

#[test]
fn empty_input_no_functions() {
    let result = process("");
    assert!(result.is_empty());
    assert_eq!(result.function_names().len(), 0);
}

#[test]
fn noise_only_no_functions() {
    let input = "some banner line\nwarning: nothing here\n\njust text\n";
    let result = process(input);
    assert!(result.is_empty());
    assert_eq!(result.function_names().len(), 0);
}

#[test]
fn single_pair_verbatim() {
    let input = "\
*** IR Dump Before SimplifyCFG on foo ***
define i32 @foo() {
  entry:
    ret i32 0
}
*** IR Dump After SimplifyCFG on foo ***
define i32 @foo() {
  ret i32 0
}
";
    let result = process(input);
    let names = result.function_names();
    assert_eq!(names, vec!["foo".to_string()]);
    let pipeline = result.pipeline_for("foo").expect("foo must be present");
    assert_eq!(pipeline.len(), 1);
    assert_eq!(pipeline[0].name, "SimplifyCFG");
    assert_eq!(
        pipeline[0].before,
        "define i32 @foo() {\n  entry:\n    ret i32 0\n}\n"
    );
    assert_eq!(pipeline[0].after, "define i32 @foo() {\n  ret i32 0\n}\n");
}

#[test]
fn after_only_chains() {
    let input = "\
*** IR Dump After PassOne on foo ***
state one
*** IR Dump After PassTwo on foo ***
state two
";
    let result = process(input);
    let pipeline = result.pipeline_for("foo").expect("foo must be present");
    assert_eq!(pipeline.len(), 2);
    assert_eq!(pipeline[0].name, "PassOne");
    assert_eq!(pipeline[0].before, "");
    assert_eq!(pipeline[0].after, "state one\n");
    assert_eq!(pipeline[1].name, "PassTwo");
    assert_eq!(pipeline[1].before, "state one\n");
    assert_eq!(pipeline[1].after, "state two\n");
}

#[test]
fn interleaved_functions_isolated() {
    let input = "\
*** IR Dump Before Inline on f1 ***
f1 before
*** IR Dump Before Inline on f2 ***
f2 before
*** IR Dump After Inline on f1 ***
f1 after
*** IR Dump After Inline on f2 ***
f2 after
";
    let result = process(input);
    assert_eq!(
        result.function_names(),
        vec!["f1".to_string(), "f2".to_string()]
    );
    let p1 = result.pipeline_for("f1").expect("f1 must be present");
    assert_eq!(p1.len(), 1);
    assert_eq!(p1[0].before, "f1 before\n");
    assert_eq!(p1[0].after, "f1 after\n");
    let p2 = result.pipeline_for("f2").expect("f2 must be present");
    assert_eq!(p2.len(), 1);
    assert_eq!(p2[0].before, "f2 before\n");
    assert_eq!(p2[0].after, "f2 after\n");
}

#[test]
fn first_seen_order_not_lexical() {
    let input = "\
*** IR Dump After PassOne on zeta ***
z
*** IR Dump After PassOne on alpha ***
a
*** IR Dump After PassTwo on zeta ***
z2
";
    let result = process(input);
    assert_eq!(
        result.function_names(),
        vec!["zeta".to_string(), "alpha".to_string()]
    );
}

#[test]
fn repeated_function_merges_into_one_pipeline() {
    let input = "\
*** IR Dump After PassOne on foo ***
one
*** IR Dump After PassOne on bar ***
b
*** IR Dump After PassTwo on foo ***
two
";
    let result = process(input);
    assert_eq!(
        result.function_names(),
        vec!["foo".to_string(), "bar".to_string()]
    );
    let pipeline = result.pipeline_for("foo").expect("foo must be present");
    assert_eq!(pipeline.len(), 2);
    assert_eq!(pipeline[0].name, "PassOne");
    assert_eq!(pipeline[1].name, "PassTwo");
}

#[test]
fn process_twice_structurally_equal() {
    let input = "\
*** IR Dump Before SimplifyCFG on foo ***
body a
*** IR Dump After SimplifyCFG on foo ***
body b
*** IR Dump After DCE on bar ***
body c
";
    let first = process(input);
    let second = process(input);
    assert_eq!(first, second);
}

#[test]
fn malformed_marker_is_body_text() {
    let input = "\
*** IR Dump Before SimplifyCFG on foo ***
real body
*** IR Dump Before Broken on bar
still the same body
*** IR Dump After SimplifyCFG on foo ***
after body
";
    let result = process(input);
    assert_eq!(result.function_names(), vec!["foo".to_string()]);
    let pipeline = result.pipeline_for("foo").expect("foo must be present");
    assert_eq!(pipeline.len(), 1);
    assert_eq!(
        pipeline[0].before,
        "real body\n*** IR Dump Before Broken on bar\nstill the same body\n"
    );
    assert_eq!(pipeline[0].after, "after body\n");
}

#[test]
fn module_wide_dump_goes_to_sentinel_bucket() {
    let input = "\
*** IR Dump Before GlobalOpt ***
module before
*** IR Dump After GlobalOpt ***
module after
";
    let result = process(input);
    assert_eq!(result.function_names(), vec!["<module>".to_string()]);
    let pipeline = result
        .pipeline_for("<module>")
        .expect("module bucket must be present");
    assert_eq!(pipeline.len(), 1);
    assert_eq!(pipeline[0].name, "GlobalOpt");
    assert_eq!(pipeline[0].before, "module before\n");
    assert_eq!(pipeline[0].after, "module after\n");
}

#[test]
fn unknown_function_lookup_is_none() {
    let input = "*** IR Dump After PassOne on foo ***\nbody\n";
    let result = process(input);
    assert!(result.pipeline_for("nope").is_none());
}

#[test]
fn before_without_after_is_dropped() {
    let input = "\
*** IR Dump Before SimplifyCFG on foo ***
left open
";
    let result = process(input);
    assert_eq!(result.function_names(), vec!["foo".to_string()]);
    let pipeline = result.pipeline_for("foo").expect("foo must be present");
    assert_eq!(pipeline.len(), 0);
}

#[test]
fn second_before_discards_first() {
    let input = "\
*** IR Dump Before PassOne on foo ***
first pending
*** IR Dump Before PassTwo on foo ***
second pending
*** IR Dump After PassTwo on foo ***
after two
";
    let result = process(input);
    let pipeline = result.pipeline_for("foo").expect("foo must be present");
    assert_eq!(pipeline.len(), 1);
    assert_eq!(pipeline[0].name, "PassTwo");
    assert_eq!(pipeline[0].before, "second pending\n");
    assert_eq!(pipeline[0].after, "after two\n");
}

#[test]
fn mismatched_after_synthesizes_from_last_known() {
    let input = "\
*** IR Dump Before PassOne on foo ***
pending one
*** IR Dump After PassTwo on foo ***
after two
*** IR Dump After PassOne on foo ***
after one
";
    let result = process(input);
    let pipeline = result.pipeline_for("foo").expect("foo must be present");
    assert_eq!(pipeline.len(), 2);
    assert_eq!(pipeline[0].name, "PassTwo");
    assert_eq!(pipeline[0].before, "");
    assert_eq!(pipeline[0].after, "after two\n");
    assert_eq!(pipeline[1].name, "PassOne");
    assert_eq!(pipeline[1].before, "after two\n");
    assert_eq!(pipeline[1].after, "after one\n");
}

#[test]
fn body_without_trailing_newline_kept_exactly() {
    let input = "*** IR Dump After PassOne on foo ***\nno newline at end";
    let result = process(input);
    let pipeline = result.pipeline_for("foo").expect("foo must be present");
    assert_eq!(pipeline.len(), 1);
    assert_eq!(pipeline[0].after, "no newline at end");
}

#[test]
fn function_name_containing_on_splits_at_first_separator() {
    let input = "*** IR Dump After PassOne on looks on purpose ***\nbody\n";
    let result = process(input);
    assert_eq!(
        result.function_names(),
        vec!["looks on purpose".to_string()]
    );
    let pipeline = result
        .pipeline_for("looks on purpose")
        .expect("function must be present");
    assert_eq!(pipeline[0].name, "PassOne");
}

#[test]
fn adjacent_markers_give_empty_bodies() {
    let input = "\
*** IR Dump Before SimplifyCFG on foo ***
*** IR Dump After SimplifyCFG on foo ***
";
    let result = process(input);
    let pipeline = result.pipeline_for("foo").expect("foo must be present");
    assert_eq!(pipeline.len(), 1);
    assert_eq!(pipeline[0].before, "");
    assert_eq!(pipeline[0].after, "");
    assert!(pipeline[0].unchanged());
}
