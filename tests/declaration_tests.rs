use ts_scss::chunk_size;
use ts_scss::generator::{declaration_path, FileError, Generator, Templates, DEFAULT_TEMPLATE};
use ts_scss::lexer::LexicalError;
use ts_scss::loader::{
    contains_text, ends_with_text, is_dist, is_hidden, is_node_modules, is_stylesheet, is_yalc,
    matches_file_type,
};
use ts_scss::logger::{LogLevel, Logger};
use ts_scss::scss::ScssFile;

#[test]
fn classes_are_unique_and_in_first_order() {
    let file = ScssFile::new("x.scss".to_string(), ".b { }\n.a { &.b { } &.c { } }\n.a {}").unwrap();
    assert_eq!(file.classes(), vec!["b".to_string(), "a".to_string(), "c".to_string()]);
}

#[test]
fn nested_class_is_flattened() {
    let file = ScssFile::new("x.scss".to_string(), "&.child { }").unwrap();
    assert_eq!(file.classes(), vec!["child".to_string()]);
}

#[test]
fn no_classes_no_declaration() {
    let file = ScssFile::new("x.scss".to_string(), "div { color: red; }\n// .a").unwrap();
    assert!(file.classes().is_empty());
    let generator = Generator::new();
    assert!(matches!(generator.generate_declaration(&file), Ok(None)));
}

#[test]
fn default_template_declaration() {
    let file = ScssFile::new("dir/x.scss".to_string(), ".a { }\n.b { }").unwrap();
    let generator = Generator::new();
    let declaration = generator.generate_declaration(&file).unwrap().unwrap();
    assert_eq!(declaration.path, "dir/x.scss.d.ts");
    let text = declaration.contents;
    assert!(text.contains("a: string;"));
    assert!(text.contains("b: string;"));
    assert!(text.contains("export type Styles = {"));
    assert!(text.contains("export type ClassNames = keyof Styles;"));
    assert!(text.contains("declare const styles: Styles;"));
    assert!(text.contains("export default styles;"));
    assert!(!text.contains("{{"));
    assert!(text.find("a: string;").unwrap() < text.find("b: string;").unwrap());
}

#[test]
fn generation_is_repeatable() {
    let generator = Generator::new();
    let first = generator.process_file("s.scss".to_string(), ".z {}\n.y {}\n.x {}");
    let second = generator.process_file("s.scss".to_string(), ".z {}\n.y {}\n.x {}");
    let a = first.unwrap().unwrap();
    let b = second.unwrap().unwrap();
    assert_eq!(a.path, b.path);
    assert_eq!(a.contents, b.contents);
}

#[test]
fn broken_template_is_a_render_error() {
    let mut generator = Generator::new();
    generator.templates.default = "{{#each class}}".to_string();
    let file = ScssFile::new("x.scss".to_string(), ".a {}").unwrap();
    let result = generator.generate_declaration(&file);
    assert!(result.unwrap_err().starts_with("Error rendering template: "));
}

#[test]
fn lexical_error_stays_with_its_file() {
    let generator = Generator::new();
    let files = vec![
        ("a.scss".to_string(), ".a {}".to_string()),
        ("bad.scss".to_string(), "#x {}".to_string()),
        ("c.scss".to_string(), ".c {}".to_string()),
    ];
    let results = generator.process_all(&files);
    assert_eq!(results.len(), 3);
    assert_eq!(results[0].as_ref().unwrap().as_ref().unwrap().path, "a.scss.d.ts");
    match &results[1] {
        Err(FileError::Lexical(e)) => assert_eq!(*e, LexicalError { position: 0, character: '#' }),
        other => panic!("unexpected outcome: {other:?}"),
    }
    assert!(results[2].as_ref().unwrap().as_ref().unwrap().contents.contains("c: string;"));
}

#[test]
fn templates_hold_the_default() {
    assert_eq!(Templates::new().default, DEFAULT_TEMPLATE);
    assert_eq!(Generator::new().templates.default, DEFAULT_TEMPLATE);
}

#[test]
fn declaration_path_appends_suffix() {
    assert_eq!(declaration_path("src/app.scss"), "src/app.scss.d.ts");
}

#[test]
fn path_filters() {
    assert!(contains_text("a/node_modules/b", "node_modules"));
    assert!(!contains_text("abc", "abcd"));
    assert!(contains_text("abc", ""));
    assert!(ends_with_text("x.scss", ".scss"));
    assert!(!ends_with_text("x.css", ".scss"));
    assert!(matches_file_type("main.scss", "scss"));
    assert!(!matches_file_type("mainscss", "scss"));
    assert!(is_node_modules("/p/node_modules/x.scss"));
    assert!(is_yalc("/p/.yalc/x.scss"));
    assert!(is_hidden(".git"));
    assert!(!is_hidden("/abs/.git"));
    assert!(is_dist("/p/dist/x.scss"));
    assert!(is_stylesheet(Some("/p/src/x.scss"), Some("x.scss")));
    assert!(!is_stylesheet(Some("/p/dist/x.scss"), Some("x.scss")));
    assert!(!is_stylesheet(Some("/p/src/x.css"), Some("x.css")));
    assert!(is_stylesheet(None, Some("x.scss")));
    assert!(!is_stylesheet(Some("/p/src/x.scss"), None));
}

#[test]
fn log_levels() {
    let info = Logger::new(LogLevel::Info);
    assert!(info.should_log(LogLevel::Error));
    assert!(info.should_log(LogLevel::Warning));
    assert!(info.should_log(LogLevel::Info));
    assert!(!info.should_log(LogLevel::Debug));
    assert!(!Logger::new(LogLevel::Error).should_log(LogLevel::Warning));
    assert!(Logger::new(LogLevel::Debug).should_log(LogLevel::Debug));
    assert_eq!(Logger::label(LogLevel::Warning), "WARNING");
}

#[test]
fn chunk_sizes() {
    assert_eq!(chunk_size(10, 4), 3);
    assert_eq!(chunk_size(8, 4), 2);
    assert_eq!(chunk_size(0, 4), 1);
    assert_eq!(chunk_size(3, 8), 1);
}
