use ditto_checker::make::compile::{file_kind, full_extension, same_text, FileKind, WarningsBundle};
use ditto_checker::make::version::Version;
use ditto_checker::make::watch::{
    classify_ninja_line, closing, nothing_to_do, should_rebuild, starts_with, Closing,
    EventForwarder, Forwarding, LineAction, NinjaLine,
};
use ditto_checker::result::Warning;
use ditto_checker::token::Span;

#[test]
fn the_full_extension_starts_behind_the_first_dot() {
    assert_eq!(full_extension("index.d.ts"), Some("d.ts"));
    assert_eq!(full_extension("Main.ditto"), Some("ditto"));
    assert_eq!(full_extension("Makefile"), None);
    assert_eq!(full_extension("trailing."), Some(""));
    assert_eq!(full_extension(".hidden"), Some("hidden"));
    assert_eq!(full_extension(""), None);
}

#[test]
fn files_are_known_by_their_full_extensions() {
    assert_eq!(file_kind("Main.ditto"), FileKind::Ditto);
    assert_eq!(file_kind("Main.ast"), FileKind::Ast);
    assert_eq!(file_kind("Main.ast-exports"), FileKind::AstExports);
    assert_eq!(file_kind("Main.js"), FileKind::Js);
    assert_eq!(file_kind("Main.checker-warnings"), FileKind::CheckerWarnings);
    assert_eq!(file_kind("Main.d.ts"), FileKind::Other);
    assert_eq!(file_kind("Data.Stuff.ditto"), FileKind::Other);
    assert_eq!(file_kind("Main"), FileKind::Other);
    assert!(same_text("ast", "ast"));
    assert!(!same_text("ast", "asT"));
    assert!(!same_text("ast", "ast-exports"));
}

#[test]
fn warnings_are_bundled_where_there_are_any() {
    assert_eq!(WarningsBundle::collect("a".to_string(), "b".to_string(), vec![]), None);
    let warning = Warning::UnusedFunctionBinder { span: Span { start_offset: 1, end_offset: 2 } };
    assert_eq!(
        WarningsBundle::collect("a".to_string(), "b".to_string(), vec![warning]),
        Some(WarningsBundle {
            name: "a".to_string(),
            source: "b".to_string(),
            warnings: vec![warning],
        })
    );
}

#[test]
fn the_version_is_rendered_with_a_star_where_dirty() {
    let mut version = Version {
        semversion: "0.1.2".to_string(),
        git_rev: "abcdef".to_string(),
        git_is_dirty: false,
        build_time: "2022-01-02T03:04:05Z".to_string(),
        build_profile: "release".to_string(),
    };
    assert_eq!(version.render_short(), "0.1.2");
    assert_eq!(version.render_long(), "0.1.2 release\nbuilt at: 2022-01-02T03:04:05Z");
    version.git_is_dirty = true;
    assert_eq!(version.render_short(), "0.1.2*");
    assert_eq!(version.render_long(), "0.1.2* release\nbuilt at: 2022-01-02T03:04:05Z");
}

#[test]
fn events_in_quick_succession_are_dropped() {
    let mut forwarder = EventForwarder::new();
    assert_eq!(forwarder.debounce_millis, 100);
    assert!(forwarder.handle_event(1000));
    assert!(!forwarder.handle_event(1050));
    assert!(!forwarder.handle_event(1100));
    assert_eq!(forwarder.last_run, Some(1000));
    assert!(forwarder.handle_event(1101));
    assert_eq!(forwarder.last_run, Some(1101));
    assert!(!forwarder.handle_event(900));
}

#[test]
fn only_changes_of_one_source_or_configuration_file_are_worth_a_build() {
    assert!(should_rebuild(true, 1, Some("ditto")));
    assert!(should_rebuild(true, 1, Some("toml")));
    assert!(!should_rebuild(true, 1, Some("js")));
    assert!(!should_rebuild(true, 1, None));
    assert!(!should_rebuild(true, 2, Some("ditto")));
    assert!(!should_rebuild(false, 1, Some("ditto")));
}

#[test]
fn lines_of_the_build_tool_are_told_apart() {
    assert_eq!(classify_ninja_line("__NINJA[1/2] ast", "__NINJA[1/2] ast"), NinjaLine::Status);
    assert_eq!(
        classify_ninja_line(
            "ninja: build stopped: subcommand failed.",
            "ninja: build stopped: subcommand failed."
        ),
        NinjaLine::BuildStopped
    );
    assert_eq!(classify_ninja_line("\u{1b}[31mFAILED: \u{1b}[0mx", "FAILED: x"), NinjaLine::Failed);
    assert_eq!(classify_ninja_line("some output", "some output"), NinjaLine::Output);
    assert!(nothing_to_do("ninja: no work to do."));
    assert!(!nothing_to_do("ninja: work to do."));
    assert!(starts_with("abc", ""));
    assert!(starts_with("abc", "abc"));
    assert!(!starts_with("ab", "abc"));
    assert!(!starts_with("abd", "abc"));
}

use ditto_checker::ast::name::{ModuleName, ProperName};
use ditto_checker::make::compile::{module_name_to_file_stem, module_name_to_path};
use ditto_checker::make::package_json::{merge_objects, merge_values, package_json, Json};

fn text(s: &str) -> Json {
    Json::String(s.to_string())
}

fn member(key: &str, value: Json) -> (String, Json) {
    (key.to_string(), value)
}

#[test]
fn module_names_become_paths() {
    let module_name = ModuleName(vec![
        ProperName("Data".to_string()),
        ProperName("Stuff".to_string()),
    ]);
    assert_eq!(module_name_to_file_stem(&module_name), "Data.Stuff");
    assert_eq!(module_name_to_path(None, &module_name), "./Data.Stuff.js");
    assert_eq!(module_name_to_path(Some("test-stuff"), &module_name), "test-stuff/Data.Stuff.js");
    assert_eq!(module_name_to_file_stem(&ModuleName(vec![])), "");
    assert_eq!(module_name_to_file_stem(&ModuleName(vec![ProperName("Main".to_string())])), "Main");
}

#[test]
fn the_right_value_wins_a_merge_unless_both_are_arrays_or_objects() {
    assert_eq!(merge_values(&text("a"), &text("b")), text("b"));
    assert_eq!(merge_values(&Json::Array(vec![text("a")]), &Json::Null), Json::Null);
    assert_eq!(
        merge_values(&Json::Array(vec![text("a")]), &Json::Array(vec![text("b"), Json::Bool(true)])),
        Json::Array(vec![text("a"), text("b"), Json::Bool(true)])
    );
    assert_eq!(
        merge_values(&Json::Object(vec![member("a", text("1"))]), &Json::Number("2".to_string())),
        Json::Number("2".to_string())
    );
}

#[test]
fn objects_are_merged_member_by_member() {
    let additions = vec![
        member("name", text("mine")),
        member("scripts", Json::Object(vec![member("test", text("jest"))])),
        member("dependencies", Json::Object(vec![member("left-pad", text("1.0.0"))])),
    ];
    let object = package_json("test", &vec!["core".to_string()]);
    assert_eq!(
        object,
        vec![
            member("name", text("test")),
            member("type", text("module")),
            member("dependencies", Json::Object(vec![member("core", text("*"))])),
        ]
    );
    assert_eq!(
        merge_objects(&additions, &object),
        vec![
            member("name", text("test")),
            member("scripts", Json::Object(vec![member("test", text("jest"))])),
            member(
                "dependencies",
                Json::Object(vec![member("left-pad", text("1.0.0")), member("core", text("*"))])
            ),
            member("type", text("module")),
        ]
    );
}

#[test]
fn the_output_of_the_build_tool_is_passed_on_line_by_line() {
    let lines = [
        "__NINJA[1/3] ast",
        "a warning",
        "more of it",
        "\u{1b}[31mFAILED: \u{1b}[0mbuild/x.js",
        "ditto compile js x",
        "an error",
        "FAILED: build/y.js",
        "__NINJA looks like status",
        "ninja: build stopped: subcommand failed.",
    ];
    let plain = [
        "__NINJA[1/3] ast",
        "a warning",
        "more of it",
        "FAILED: build/x.js",
        "ditto compile js x",
        "an error",
        "FAILED: build/y.js",
        "__NINJA looks like status",
        "ninja: build stopped: subcommand failed.",
    ];
    let mut state = Forwarding::new();
    let mut actions = Vec::new();
    for (line, plain) in lines.iter().zip(plain.iter()) {
        let (next, action) = state.step(line, plain);
        state = next;
        actions.push(action);
    }
    assert_eq!(
        actions,
        vec![
            LineAction::Status,
            LineAction::Output { blank_line_first: true },
            LineAction::Output { blank_line_first: false },
            LineAction::Drop,
            LineAction::Drop,
            LineAction::Output { blank_line_first: false },
            LineAction::Drop,
            LineAction::Drop,
            LineAction::Drop,
        ]
    );
    assert_eq!(state, Forwarding { drop_next: false, passed_output: true });
}

#[test]
fn the_warnings_are_shown_when_nothing_went_wrong() {
    assert_eq!(closing(true, true, 0), Closing::NothingToDo);
    assert_eq!(closing(true, true, 2), Closing::Warnings);
    assert_eq!(closing(true, false, 2), Closing::Warnings);
    assert_eq!(closing(false, true, 2), Closing::Warnings);
    assert_eq!(closing(false, true, 0), Closing::Nothing);
    assert_eq!(closing(false, false, 2), Closing::Nothing);
    assert_eq!(closing(false, false, 0), Closing::Nothing);
}
