use wallman::commands::colors::{color_strategy_choice, parse_colors_args, ColorStrategyChoice};
use wallman::commands::index::{parse_index_args, strategy_choice, StrategyChoice};
use wallman::commands::{parse_command, CommandName};

fn args(v: &[&str]) -> Vec<String> {
    v.iter().map(|s| s.to_string()).collect()
}

#[test]
fn commands_by_name() {
    assert_eq!(parse_command("index"), Some(CommandName::Index));
    assert_eq!(parse_command("colors"), Some(CommandName::Colors));
    assert_eq!(parse_command("Index"), None);
    assert_eq!(parse_command("paint"), None);
}

#[test]
fn strategy_names() {
    assert_eq!(strategy_choice("rec"), StrategyChoice::Recursive);
    assert_eq!(strategy_choice("home"), StrategyChoice::Home);
    assert_eq!(strategy_choice("same"), StrategyChoice::SameDirectory);
    assert_eq!(strategy_choice("anything"), StrategyChoice::SameDirectory);
}

#[test]
fn index_args_need_three() {
    assert!(parse_index_args(&args(&["index", "/walls"])).is_none());
    assert!(parse_index_args(&args(&["index"])).is_none());
}

#[test]
fn index_args_without_extensions() {
    let a = parse_index_args(&args(&["index", "/walls", "rec"])).unwrap();
    assert_eq!(a.path, "/walls");
    assert_eq!(a.strategy_name, "rec");
    assert_eq!(a.strategy, StrategyChoice::Recursive);
    assert!(a.extensions.is_empty());
}

#[test]
fn index_args_keep_image_extensions() {
    let a = parse_index_args(&args(&["index", "/walls", "PNG", "txt", "jpg", "doc", "home"])).unwrap();
    assert_eq!(a.extensions, vec!["PNG".to_string(), "jpg".to_string()]);
    assert_eq!(a.strategy, StrategyChoice::Home);
    assert_eq!(a.strategy_name, "home");
}

#[test]
fn colors_args() {
    assert!(parse_colors_args(&args(&["colors", "-native"])).is_none());
    let a = parse_colors_args(&args(&["colors", "-native", "sky.png", "extra"])).unwrap();
    assert_eq!(a.strategy_flag, "-native");
    assert_eq!(a.image_path, "sky.png");
}

#[test]
fn color_strategies() {
    assert_eq!(color_strategy_choice("-native"), Some(ColorStrategyChoice::Native));
    assert_eq!(color_strategy_choice("native"), None);
    assert_eq!(color_strategy_choice("-pywal"), None);
}
