use optpipeline::scan;
use optpipeline::ColorChoice;
use optpipeline::Direction;
use optpipeline::Pass;
use optpipeline::color_enabled;

#[test]
fn unchanged_is_exact_byte_equality() {
    let same = Pass {
        name: "PassOne".to_string(),
        before: "text\n".to_string(),
        after: "text\n".to_string(),
    };
    assert!(same.unchanged());
}

#[test]
fn trailing_newline_difference_is_a_change() {
    let differ = Pass {
        name: "PassOne".to_string(),
        before: "text".to_string(),
        after: "text\n".to_string(),
    };
    assert!(!differ.unchanged());
}

#[test]
fn should_display_skips_only_unchanged() {
    let same = Pass {
        name: "PassOne".to_string(),
        before: "x".to_string(),
        after: "x".to_string(),
    };
    let differ = Pass {
        name: "PassTwo".to_string(),
        before: "x".to_string(),
        after: "y".to_string(),
    };
    assert!(!same.should_display(true));
    assert!(same.should_display(false));
    assert!(differ.should_display(true));
    assert!(differ.should_display(false));
}

#[test]
fn scan_yields_typed_events_in_file_order() {
    let input = "\
noise before the first marker is discarded
*** IR Dump Before SimplifyCFG on foo ***
before body
*** IR Dump After SimplifyCFG on foo ***
after body
";
    let events = scan(input);
    assert_eq!(events.len(), 2);
    assert_eq!(events[0].direction, Direction::Before);
    assert_eq!(events[0].pass_name, "SimplifyCFG");
    assert_eq!(events[0].function_name, "foo");
    assert_eq!(events[0].body, "before body\n");
    assert_eq!(events[1].direction, Direction::After);
    assert_eq!(events[1].body, "after body\n");
}

#[test]
fn color_enabled_follows_choice() {
    assert!(color_enabled(ColorChoice::Auto, true));
    assert!(!color_enabled(ColorChoice::Auto, false));
    assert!(color_enabled(ColorChoice::Always, false));
    assert!(!color_enabled(ColorChoice::Never, true));
}

#[test]
fn assemble_pairs_constructed_events() {
    let events = vec![
        optpipeline::Event {
            direction: Direction::Before,
            pass_name: "Mem2Reg".to_string(),
            function_name: "foo".to_string(),
            body: "alloca form\n".to_string(),
        },
        optpipeline::Event {
            direction: Direction::After,
            pass_name: "Mem2Reg".to_string(),
            function_name: "foo".to_string(),
            body: "ssa form\n".to_string(),
        },
    ];
    let result = optpipeline::assemble(&events);
    let pipeline = result.pipeline_for("foo").expect("foo must be present");
    assert_eq!(pipeline.len(), 1);
    assert_eq!(pipeline[0].name, "Mem2Reg");
    assert_eq!(pipeline[0].before, "alloca form\n");
    assert_eq!(pipeline[0].after, "ssa form\n");
}
