use hyprland_preview_share_picker::cli::{Cli, Command};
use hyprland_preview_share_picker::config::{expand_path, Config, Page};

fn at(path: &str) -> Config {
    Config::default().with_path(path.to_string())
}

#[test]
fn defaults() {
    let c = Config::default();
    assert_eq!((c.window.width, c.window.height), (1000, 500));
    assert_eq!((c.image.resize_size, c.image.widget_size), (200, 150));
    assert_eq!(c.classes.image_label, "image-label");
    assert_eq!(c.classes.notebook_page, "page");
    assert_eq!(c.region.command, "slurp -f '%o@%x,%y,%w,%h'");
    assert_eq!((c.outputs.min_per_row, c.outputs.max_per_row), (2, 2));
    assert_eq!((c.windows.min_per_row, c.windows.max_per_row), (3, 999));
    assert_eq!(c.default_page, Page::Windows);
    assert!(c.stylesheets.is_empty());
    assert!(!c.hide_token_restore);
}

#[test]
fn path_and_directory() {
    let c = at("/etc/picker/config.yaml");
    assert_eq!(c.path(), "/etc/picker/config.yaml");
    assert_eq!(c.directory(), "/etc/picker");
    assert_eq!(at("/").directory(), "/");
    assert_eq!(at("config.yaml").directory(), "");
}

#[test]
fn expand_home() {
    let home = Some("/home/u".to_string());
    assert_eq!(expand_path(&"a/b".to_string(), home.clone()), Some("a/b".to_string()));
    assert_eq!(expand_path(&"~".to_string(), home.clone()), Some("/home/u".to_string()));
    assert_eq!(expand_path(&"$HOME".to_string(), home.clone()), Some("/home/u".to_string()));
    assert_eq!(expand_path(&"~/x.css".to_string(), home.clone()), Some("/home/u/x.css".to_string()));
    assert_eq!(expand_path(&"$HOME/x.css".to_string(), home.clone()), Some("/home/u/x.css".to_string()));
    assert_eq!(expand_path(&"~/x.css".to_string(), Some("/".to_string())), Some("/x.css".to_string()));
    assert_eq!(expand_path(&"~/x.css".to_string(), None), None);
    assert_eq!(expand_path(&"/abs".to_string(), None), Some("/abs".to_string()));
}

#[test]
fn resolve_relative_and_absolute() {
    let c = at("/etc/picker/config.yaml");
    let home = Some("/home/u".to_string());
    assert_eq!(c.resolve_path_with_home(&"style.css".to_string(), home.clone()), "/etc/picker/style.css");
    assert_eq!(c.resolve_path_with_home(&"/usr/share/s.css".to_string(), home.clone()), "/usr/share/s.css");
    assert_eq!(c.resolve_path_with_home(&"~/s.css".to_string(), home.clone()), "/home/u/s.css");
    assert_eq!(c.resolve_path_with_home(&"~/s.css".to_string(), None), "/etc/picker/~/s.css");
    assert_eq!(at("/").resolve_path_with_home(&"s.css".to_string(), None), "/s.css");
    assert_eq!(at("config.yaml").resolve_path_with_home(&"s.css".to_string(), None), "s.css");
}

#[test]
fn resolve_with_environment_home() {
    let c = at("/etc/picker/config.yaml");
    assert_eq!(c.resolve_path(&"style.css".to_string()), "/etc/picker/style.css");
}

#[test]
fn expand_only_leading_word() {
    let home = Some("/home/u".to_string());
    assert_eq!(expand_path(&"~/a~b".to_string(), home.clone()), Some("/home/u/a~b".to_string()));
    assert_eq!(expand_path(&"$HOME/$HOME~".to_string(), home.clone()), Some("/home/u/$HOME~".to_string()));
    assert_eq!(expand_path(&"a/~/b".to_string(), home.clone()), Some("a/~/b".to_string()));
    assert_eq!(expand_path(&"~user".to_string(), home), Some("/home/uuser".to_string()));
}

#[test]
fn cli_values() {
    let cli = Cli {
        config: "c.yaml".to_string(),
        debug: true,
        logs: "l.log".to_string(),
        inspect: false,
        allow_token_by_default: true,
        command: Some(Command::Schema),
    };
    assert_eq!(cli.command, Some(Command::Schema));
    assert!(cli.debug && cli.allow_token_by_default);
}
