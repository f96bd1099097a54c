use toaster_plugins::admin::flush_before_add;
use toaster_plugins::admin::format_group_list;
use toaster_plugins::admin::reload_requires_confirmation;
use toaster_plugins::code_block::contains_backtick;
use toaster_plugins::code_block::extract_input;
use toaster_plugins::staging::staged_lib_name;
use toaster_plugins::staging::u64_to_dec;
use toaster_plugins::yolol_config::InputFlag;
use toaster_plugins::yolol_config::OutputFlag;
use toaster_plugins::yolol_config::YololConfig;

fn args(words: &[&str]) -> Vec<String> {
    words.iter().map(|w| w.to_string()).collect()
}

#[test]
fn parse_args_defaults_when_first_argument_is_input() {
    let a = args(&["x=1"]);
    let (config, next) = YololConfig::parse_args(&a, 0).unwrap();
    assert_eq!(config.input, InputFlag::Yolol);
    assert_eq!(config.output, OutputFlag::Execution);
    assert_eq!(next, 0);
}

#[test]
fn parse_args_consumes_leading_flags() {
    let a = args(&["-ic", "--output=yolol", "x=1", "-oa"]);
    let (config, next) = YololConfig::parse_args(&a, 0).unwrap();
    assert_eq!(config.input, InputFlag::CylonAst);
    assert_eq!(config.output, OutputFlag::Yolol);
    assert_eq!(next, 2);
}

#[test]
fn parse_args_recognises_every_output_flag() {
    let cases: Vec<(&str, OutputFlag)> = vec![
        ("--output=yolol", OutputFlag::Yolol),
        ("--output=code", OutputFlag::Yolol),
        ("-oy", OutputFlag::Yolol),
        ("--output=cylon_ast", OutputFlag::CylonAst),
        ("-oc", OutputFlag::CylonAst),
        ("--output=ast", OutputFlag::Ast),
        ("--output=parsed", OutputFlag::Ast),
        ("-oa", OutputFlag::Ast),
        ("--output=tokens", OutputFlag::Tokens),
        ("-ot", OutputFlag::Tokens),
    ];
    for (flag, expected) in cases {
        let a = args(&[flag, "code"]);
        let (config, next) = YololConfig::parse_args(&a, 0).unwrap();
        assert_eq!(config.output, expected);
        assert_eq!(next, 1);
    }
}

#[test]
fn parse_args_errors_when_only_flags_are_supplied() {
    let a = args(&["-ic", "-oy"]);
    assert!(YololConfig::parse_args(&a, 0).is_err());
    let empty = args(&[]);
    assert!(YololConfig::parse_args(&empty, 0).is_err());
}

#[test]
fn parse_args_later_flag_wins() {
    let a = args(&["-oy", "-ot", "code"]);
    let (config, next) = YololConfig::parse_args(&a, 0).unwrap();
    assert_eq!(config.output, OutputFlag::Tokens);
    assert_eq!(next, 2);
}

#[test]
fn default_config_matches_new() {
    assert_eq!(YololConfig::default(), YololConfig::new());
}

#[test]
fn extract_input_takes_code_between_fences() {
    let r = extract_input("```\nx=1\n```").unwrap();
    assert_eq!(r, "x=1\n");
}

#[test]
fn extract_input_skips_language_line() {
    let r = extract_input("```yolol\nx=1```").unwrap();
    assert_eq!(r, "x=1");
}

#[test]
fn extract_input_without_language_newline_keeps_word() {
    let r = extract_input("```abc```").unwrap();
    assert_eq!(r, "abc");
}

#[test]
fn extract_input_allows_leading_newlines() {
    let r = extract_input("\n\n```c\nz```").unwrap();
    assert_eq!(r, "z");
}

#[test]
fn extract_input_of_empty_block_is_empty() {
    assert_eq!(extract_input("``````").unwrap(), "");
    assert_eq!(extract_input("```\n```").unwrap(), "");
}

#[test]
fn extract_input_rejects_unfenced_text() {
    assert!(extract_input("x=1").is_err());
    assert!(extract_input("```x=1").is_err());
    assert!(extract_input("x=1```").is_err());
    assert!(extract_input("``").is_err());
    assert!(extract_input("").is_err());
}

#[test]
fn backtick_guard_flags_backticks_only() {
    assert!(contains_backtick("x=`1`"));
    assert!(contains_backtick("`"));
    assert!(!contains_backtick("x=1"));
    assert!(!contains_backtick(""));
}

#[test]
fn decimal_rendering_is_exact() {
    assert_eq!(u64_to_dec(0), "0");
    assert_eq!(u64_to_dec(7), "7");
    assert_eq!(u64_to_dec(10), "10");
    assert_eq!(u64_to_dec(12345), "12345");
    assert_eq!(u64_to_dec(u64::MAX), "18446744073709551615");
}

#[test]
fn staged_name_is_exact() {
    assert_eq!(staged_lib_name(&"general".to_string(), 1), "lib_general.plugin.1");
    assert_eq!(staged_lib_name(&"yolol".to_string(), 42), "lib_yolol.plugin.42");
}

#[test]
fn admin_group_guards() {
    assert!(!flush_before_add(&"plugins".to_string()));
    assert!(flush_before_add(&"general".to_string()));
    assert!(reload_requires_confirmation(&"plugins".to_string()));
    assert!(!reload_requires_confirmation(&"yolol".to_string()));
}

#[test]
fn group_list_renders_as_code_block() {
    let groups = vec!["general".to_string(), "yolol".to_string()];
    let text = format_group_list(&groups);
    assert_eq!(text, "```Groups found:\n\n- general\n- yolol\n```");
    let empty: Vec<String> = Vec::new();
    assert_eq!(format_group_list(&empty), "```Groups found:\n\n```");
}
