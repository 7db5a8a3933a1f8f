use vstd::prelude::*;

use crate::lexer::{
    after, lemma_scan_fails_at, lookahead, rule_of, scan, scan_from, tokens_view, LexicalError,
    Rule, TokenView,
};
use crate::scss::{class_names, lemma_no_classes, is_class, strings_view, ScssFile};

verus! {

/// The template of a declaration file: a structural type with one string
/// field per class, the union of its keys, and a default-exported value.
pub const DEFAULT_TEMPLATE: &'static str =
    "export type Styles = {\n{{#each class as |c| }}\n  {{c}}: string;\n{{/each}}\n}\n\nexport type ClassNames = keyof Styles;\n\ndeclare const styles: Styles;\n\nexport default styles;\n";

/// The name under which the class names are handed to a template.
pub const CLASS_KEY: &'static str = "class";

/// The start of the message of a failed rendering.
pub const RENDER_ERROR_PREFIX: &'static str = "Error rendering template: ";

/// The suffix that turns a stylesheet's path into its declaration's path.
pub const DECLARATION_SUFFIX: &'static str = ".d.ts";

/// The templates that declarations are rendered with.
#[derive(Debug)]
pub struct Templates {
    /// The declaration file template.
    pub default: String,
}

impl Templates {
    pub fn new() -> (r: Templates)
        ensures
            r.default@ == DEFAULT_TEMPLATE@,
    {
        Templates { default: String::from_str(DEFAULT_TEMPLATE) }
    }
}

/// What rendering `template` gives when `key` is bound to the list `names`,
/// or `None` where rendering fails.
pub uninterp spec fn rendered(template: Seq<char>, key: Seq<char>, names: Seq<Seq<char>>) -> Option<
    Seq<char>,
>;

/// Relies on handlebars' `Registry::render_template`: a fresh registry renders
/// `template` with `key` bound to `names`; the outcome depends on these alone.
#[verifier::external_body]
fn render_template(template: &String, key: &str, names: &Vec<String>) -> (r: Result<String, String>)
    ensures
        match r {
            Ok(out) => rendered(template@, key@, strings_view(names@)) == Some(out@),
            Err(_) => rendered(template@, key@, strings_view(names@)) is None,
        },
{
    let registry = handlebars::Handlebars::new();
    let mut data = serde_json::Map::new();
    data.insert(key.to_string(), handlebars::to_json(names));
    registry.render_template(template, &serde_json::Value::Object(data)).map_err(|e| e.to_string())
}

/// The path of the declaration for the stylesheet at `file_path`.
pub fn declaration_path(file_path: &str) -> (r: String)
    ensures
        r@ == file_path@ + DECLARATION_SUFFIX@,
{
    String::from_str(file_path).concat(DECLARATION_SUFFIX)
}

/// A rendered declaration and where it belongs.
#[derive(Debug)]
pub struct Declaration {
    pub path: String,
    pub contents: String,
}

/// What generating a declaration gives, as mathematics: nothing when there
/// are no class names; else the path and the rendered text, or `Err` where
/// rendering fails.
pub open spec fn declaration_of(file_path: Seq<char>, ts: Seq<TokenView>, template: Seq<char>) -> Result<
    Option<(Seq<char>, Seq<char>)>,
    (),
> {
    let names = class_names(ts);
    if names.len() == 0 {
        Ok(None)
    } else {
        match rendered(template, CLASS_KEY@, names) {
            Some(text) => Ok(Some((file_path + DECLARATION_SUFFIX@, text))),
            None => Err(()),
        }
    }
}

/// The view of a generation outcome.
pub open spec fn outcome_view(r: Result<Option<Declaration>, String>) -> Result<
    Option<(Seq<char>, Seq<char>)>,
    (),
> {
    match r {
        Ok(Some(d)) => Ok(Some((d.path@, d.contents@))),
        Ok(None) => Ok(None),
        Err(_) => Err(()),
    }
}

/// Renders class declarations.
#[derive(Debug)]
pub struct Generator {
    pub templates: Templates,
}

impl Generator {
    pub fn new() -> (r: Generator)
        ensures
            r.templates.default@ == DEFAULT_TEMPLATE@,
    {
        Generator { templates: Templates::new() }
    }

    /// The declaration of `scss_file`'s classes: `Ok(None)` when it has none,
    /// so that nothing is written; where rendering fails, a message that
    /// starts with `RENDER_ERROR_PREFIX` and goes on with the renderer's own.
    pub fn generate_declaration(&self, scss_file: &ScssFile) -> (r: Result<Option<Declaration>, String>)
        ensures
            outcome_view(r) == declaration_of(
                scss_file.file_path@,
                tokens_view(scss_file.tokens@),
                self.templates.default@,
            ),
            r matches Err(m) ==> RENDER_ERROR_PREFIX@.is_prefix_of(m@),
    {
        let names = scss_file.classes();
        if names.len() == 0 {
            return Ok(None);
        }
        match render_template(&self.templates.default, CLASS_KEY, &names) {
            Ok(contents) => Ok(
                Some(Declaration { path: declaration_path(scss_file.file_path.as_str()), contents }),
            ),
            Err(message) => {
                let text = String::from_str(RENDER_ERROR_PREFIX).concat(message.as_str());
                assert(RENDER_ERROR_PREFIX@ =~= text@.subrange(0, RENDER_ERROR_PREFIX@.len() as int));
                Err(text)
            },
        }
    }
}

/// Why one file produced no declaration.
#[derive(Debug)]
pub enum FileError {
    /// The text holds a character that no scanning rule accepts.
    Lexical(LexicalError),
    /// The template could not be rendered.
    Render(String),
}

/// What processing a file gives, as mathematics.
pub open spec fn file_outcome(file_path: Seq<char>, content: Seq<char>, template: Seq<char>) -> Result<
    Option<(Seq<char>, Seq<char>)>,
    Option<int>,
> {
    match scan(content) {
        Err(e) => Err(Some(e)),
        Ok(ts) => match declaration_of(file_path, ts, template) {
            Ok(d) => Ok(d),
            Err(_) => Err(None),
        },
    }
}

/// The view of a file outcome: a lexical error shows its position.
pub open spec fn file_result_view(r: Result<Option<Declaration>, FileError>) -> Result<
    Option<(Seq<char>, Seq<char>)>,
    Option<int>,
> {
    match r {
        Ok(Some(d)) => Ok(Some((d.path@, d.contents@))),
        Ok(None) => Ok(None),
        Err(FileError::Lexical(e)) => Err(Some(e.position as int)),
        Err(FileError::Render(_)) => Err(None),
    }
}

impl Generator {
    /// Scans the text of one file and generates its declaration. Every failure
    /// is returned, never raised, so that it concerns this file alone.
    pub fn process_file(&self, file_path: String, content: &str) -> (r: Result<
        Option<Declaration>,
        FileError,
    >)
        ensures
            file_result_view(r) == file_outcome(file_path@, content@, self.templates.default@),
            r matches Err(FileError::Lexical(e)) ==> e.position < content@.len()
                && e.character == content@[e.position as int],
    {
        match ScssFile::new(file_path, content) {
            Err(e) => Err(FileError::Lexical(e)),
            Ok(file) => match self.generate_declaration(&file) {
                Ok(d) => Ok(d),
                Err(message) => Err(FileError::Render(message)),
            },
        }
    }

    /// Processes each `(path, text)` pair on its own: the outcome for a file
    /// depends on that file alone, whatever the others hold.
    pub fn process_all(&self, files: &Vec<(String, String)>) -> (r: Vec<
        Result<Option<Declaration>, FileError>,
    >)
        ensures
            r@.len() == files@.len(),
            forall|i: int|
                0 <= i < files@.len() ==> file_result_view(#[trigger] r@[i]) == file_outcome(
                    files@[i].0@,
                    files@[i].1@,
                    self.templates.default@,
                ),
    {
        let mut out: Vec<Result<Option<Declaration>, FileError>> = Vec::new();
        let mut i: usize = 0;
        while i < files.len()
            invariant
                i <= files@.len(),
                out@.len() == i,
                forall|k: int|
                    0 <= k < i ==> file_result_view(#[trigger] out@[k]) == file_outcome(
                        files@[k].0@,
                        files@[k].1@,
                        self.templates.default@,
                    ),
            decreases files@.len() - i,
        {
            let (path, content) = &files[i];
            out.push(self.process_file(path.clone(), content.as_str()));
            i = i + 1;
        }
        out
    }
}

/// A stylesheet without class tokens gives no declaration, so nothing is
/// written.
pub proof fn lemma_no_classes_no_declaration(
    file_path: Seq<char>,
    ts: Seq<TokenView>,
    template: Seq<char>,
)
    requires
        forall|i: int| 0 <= i < ts.len() ==> !is_class(#[trigger] ts[i]),
    ensures
        class_names(ts).len() == 0,
        declaration_of(file_path, ts, template) == Ok::<Option<(Seq<char>, Seq<char>)>, ()>(None),
{
    lemma_no_classes(ts);
}

/// Generation is a function of the file's path, its text and the template:
/// running it again on an unchanged file and template gives the same outcome,
/// and the same class names in the same order.
pub proof fn lemma_generation_repeatable(
    path1: Seq<char>,
    content1: Seq<char>,
    path2: Seq<char>,
    content2: Seq<char>,
    template: Seq<char>,
)
    requires
        path1 == path2,
        content1 == content2,
    ensures
        file_outcome(path1, content1, template) == file_outcome(path2, content2, template),
        scan(content1) matches Ok(ts) ==> class_names(ts) == class_names(
            scan(content2)->Ok_0,
        ),
{
}

/// A file whose scan reaches a character that selects no rule fails with a
/// lexical error at that character, and that failure is its own outcome:
/// with `process_all` the other files' outcomes do not depend on it.
pub proof fn lemma_lexical_error_is_file_scoped(
    file_path: Seq<char>,
    content: Seq<char>,
    template: Seq<char>,
    pre: Seq<TokenView>,
    p: int,
)
    requires
        0 <= p < content.len(),
        scan(content) == after(pre, scan_from(content, p)),
        rule_of(content[p], lookahead(content, p)) == Rule::Unexpected,
    ensures
        file_outcome(file_path, content, template) == Err::<Option<(Seq<char>, Seq<char>)>, Option<int>>(
            Some(p),
        ),
{
    lemma_scan_fails_at(content, pre, p);
}

} // verus!
