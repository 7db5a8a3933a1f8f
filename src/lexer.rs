use vstd::prelude::*;
use vstd::std_specs::iter::IteratorSpec;

verus! {

broadcast use vstd::string::group_string_axioms;

// ---------------------------------------------------------------------------
// Token vocabulary
// ---------------------------------------------------------------------------

/// Single-character punctuation recognised by the scanner.
#[derive(Debug, Clone, Copy, PartialEq, Eq, Structural)]
pub enum Operator {
    LBrace,
    RBrace,
    LParen,
    RParen,
    Colon,
    Semicolon,
    NewLine,
    Plus,
}

/// What a token is.
#[derive(Debug, Clone, PartialEq, Eq)]
pub enum TokenKind {
    /// An element selector such as `div`.
    Element,
    /// An `@import` directive.
    Import,
    /// An `@include` or `@use` directive.
    Include,
    /// A class selector; `true` when written under `&`.
    Class(bool),
    /// An `@mixin` directive.
    Mixin,
    /// A `$name` variable.
    Variable,
    /// A `--name` custom property.
    CssVariable,
    /// An `@media` rule.
    Media,
    /// A property declaration (or a pseudo-class), carrying its name.
    Property(String),
    /// A `//` or `/* */` comment.
    Comment,
    /// Punctuation.
    Op(Operator),
    /// A run of horizontal whitespace, as a count.
    Indent(usize),
    /// The end of the input.
    EOF,
}

/// A token: its kind and its lexeme.
#[derive(Debug, Clone, PartialEq, Eq)]
pub struct Token {
    pub kind: TokenKind,
    pub value: String,
}

/// A character that no scanning rule accepts, and where it stands.
#[derive(Debug, Clone, Copy, PartialEq, Eq)]
pub struct LexicalError {
    pub position: usize,
    pub character: char,
}

/// The mathematical form of a `TokenKind`.
pub enum KindView {
    Element,
    Import,
    Include,
    Class(bool),
    Mixin,
    Variable,
    CssVariable,
    Media,
    Property(Seq<char>),
    Comment,
    Op(Operator),
    Indent(nat),
    EOF,
}

/// The mathematical form of a `Token`.
pub struct TokenView {
    pub kind: KindView,
    pub value: Seq<char>,
}

impl View for TokenKind {
    type V = KindView;

    open spec fn view(&self) -> KindView {
        match self {
            TokenKind::Element => KindView::Element,
            TokenKind::Import => KindView::Import,
            TokenKind::Include => KindView::Include,
            TokenKind::Class(n) => KindView::Class(*n),
            TokenKind::Mixin => KindView::Mixin,
            TokenKind::Variable => KindView::Variable,
            TokenKind::CssVariable => KindView::CssVariable,
            TokenKind::Media => KindView::Media,
            TokenKind::Property(name) => KindView::Property(name@),
            TokenKind::Comment => KindView::Comment,
            TokenKind::Op(op) => KindView::Op(*op),
            TokenKind::Indent(n) => KindView::Indent(*n as nat),
            TokenKind::EOF => KindView::EOF,
        }
    }
}

impl View for Token {
    type V = TokenView;

    open spec fn view(&self) -> TokenView {
        TokenView { kind: self.kind@, value: self.value@ }
    }
}

/// The character of a decimal digit.
pub open spec fn digit_char(d: nat) -> char {
    if d == 0 {
        '0'
    } else if d == 1 {
        '1'
    } else if d == 2 {
        '2'
    } else if d == 3 {
        '3'
    } else if d == 4 {
        '4'
    } else if d == 5 {
        '5'
    } else if d == 6 {
        '6'
    } else if d == 7 {
        '7'
    } else if d == 8 {
        '8'
    } else {
        '9'
    }
}

/// The decimal digits of `n`, without leading zeros.
pub open spec fn decimal(n: nat) -> Seq<char>
    decreases n,
{
    if n < 10 {
        seq![digit_char(n)]
    } else {
        decimal(n / 10).push(digit_char(n % 10))
    }
}

fn push_decimal(n: usize, out: &mut Vec<char>)
    ensures
        final(out)@ == old(out)@ + decimal(n as nat),
    decreases n,
{
    if n >= 10 {
        push_decimal(n / 10, out);
    }
    let d = n % 10;
    let c = if d == 0 {
        '0'
    } else if d == 1 {
        '1'
    } else if d == 2 {
        '2'
    } else if d == 3 {
        '3'
    } else if d == 4 {
        '4'
    } else if d == 5 {
        '5'
    } else if d == 6 {
        '6'
    } else if d == 7 {
        '7'
    } else if d == 8 {
        '8'
    } else {
        '9'
    };
    out.push(c);
    assert(out@ =~= old(out)@ + decimal(n as nat));
}

/// The text of an operator.
pub open spec fn operator_text(op: Operator) -> Seq<char> {
    match op {
        Operator::LBrace => "{"@,
        Operator::RBrace => "}"@,
        Operator::LParen => "("@,
        Operator::RParen => ")"@,
        Operator::Colon => ":"@,
        Operator::Semicolon => ";"@,
        Operator::NewLine => "\\n"@,
        Operator::Plus => "+"@,
    }
}

/// How a token kind is shown.
pub open spec fn kind_description(k: KindView) -> Seq<char> {
    match k {
        KindView::Element => "<element>"@,
        KindView::Import => "<import>"@,
        KindView::Include => "<include>"@,
        KindView::Mixin => "<mixin>"@,
        KindView::Media => "<media>"@,
        KindView::Variable => "<variable>"@,
        KindView::CssVariable => "<css-variable>"@,
        KindView::Comment => "<comment>"@,
        KindView::Property(name) => "<property: "@ + name + ">"@,
        KindView::Class(nested) => "<class:"@ + (if nested {
            "true"@
        } else {
            "false"@
        }) + ">"@,
        KindView::Op(op) => "<operator: "@ + operator_text(op) + ">"@,
        KindView::Indent(n) => "<indent: "@ + decimal(n) + ">"@,
        KindView::EOF => "<EOF>"@,
    }
}

impl Operator {
    /// The operator as it is written.
    pub fn text(&self) -> (r: &'static str)
        ensures
            r@ == operator_text(*self),
    {
        match self {
            Operator::LBrace => "{",
            Operator::RBrace => "}",
            Operator::LParen => "(",
            Operator::RParen => ")",
            Operator::Colon => ":",
            Operator::Semicolon => ";",
            Operator::NewLine => "\\n",
            Operator::Plus => "+",
        }
    }
}

impl TokenKind {
    /// The kind as it is shown in diagnostics, such as `<property: color>`.
    pub fn description(&self) -> (r: String)
        ensures
            r@ == kind_description(self@),
    {
        match self {
            TokenKind::Element => String::from_str("<element>"),
            TokenKind::Import => String::from_str("<import>"),
            TokenKind::Include => String::from_str("<include>"),
            TokenKind::Mixin => String::from_str("<mixin>"),
            TokenKind::Media => String::from_str("<media>"),
            TokenKind::Variable => String::from_str("<variable>"),
            TokenKind::CssVariable => String::from_str("<css-variable>"),
            TokenKind::Comment => String::from_str("<comment>"),
            TokenKind::Property(name) => String::from_str("<property: ").concat(name.as_str()).concat(
                ">",
            ),
            TokenKind::Class(nested) => String::from_str("<class:").concat(
                if *nested {
                    "true"
                } else {
                    "false"
                },
            ).concat(">"),
            TokenKind::Op(op) => String::from_str("<operator: ").concat(op.text()).concat(">"),
            TokenKind::Indent(n) => {
                let mut digits: Vec<char> = Vec::new();
                push_decimal(*n, &mut digits);
                proof {
                    assert(digits@ =~= decimal(*n as nat));
                }
                String::from_str("<indent: ").concat(chars_to_string(&digits).as_str()).concat(">")
            },
            TokenKind::EOF => String::from_str("<EOF>"),
        }
    }
}

pub open spec fn tok(kind: KindView, value: Seq<char>) -> TokenView {
    TokenView { kind, value }
}

/// The views of a sequence of tokens.
pub open spec fn tokens_view(ts: Seq<Token>) -> Seq<TokenView> {
    ts.map_values(|t: Token| t@)
}

// ---------------------------------------------------------------------------
// Character classes
// ---------------------------------------------------------------------------

/// Whether `c` is an ASCII letter.
pub open spec fn is_alpha(c: char) -> bool {
    ('a' <= c && c <= 'z') || ('A' <= c && c <= 'Z')
}

/// Whether `c` is an ASCII letter or digit.
pub open spec fn is_alnum(c: char) -> bool {
    is_alpha(c) || ('0' <= c && c <= '9')
}

/// Whether `c` is a letter in Unicode's sense (the `Alphabetic` property).
pub uninterp spec fn unicode_alpha(c: char) -> bool;

/// Whether `c` is a letter or a number in Unicode's sense (`Alphabetic`, or a
/// numeric general category).
pub uninterp spec fn unicode_alnum(c: char) -> bool;

/// Relies on `char::is_alphabetic`: whether `c` has the Unicode `Alphabetic`
/// property; ASCII letters have it.
#[verifier::external_body]
fn alphabetic(c: char) -> (r: bool)
    ensures
        r == unicode_alpha(c),
        is_alpha(c) ==> r,
{
    c.is_alphabetic()
}

/// Relies on `char::is_alphanumeric`: whether `c` is alphabetic or numeric in
/// Unicode's sense; ASCII letters and digits are.
#[verifier::external_body]
fn alphanumeric(c: char) -> (r: bool)
    ensures
        r == unicode_alnum(c),
        is_alnum(c) ==> r,
{
    c.is_alphanumeric()
}

/// Whether `c` has the Unicode `White_Space` property, as `char::is_whitespace`
/// lists it.
pub open spec fn is_whitespace(c: char) -> bool {
    ('\t' <= c && c <= '\r') || c == ' ' || c == '\u{85}' || c == '\u{A0}' || c == '\u{1680}'
        || ('\u{2000}' <= c && c <= '\u{200A}') || c == '\u{2028}' || c == '\u{2029}' || c
        == '\u{202F}' || c == '\u{205F}' || c == '\u{3000}'
}

/// Whitespace that does not end a line.
pub open spec fn is_horizontal_space(c: char) -> bool {
    is_whitespace(c) && c != '\n' && c != '\r'
}

/// Whether `c` ends a line.
pub open spec fn is_line_end(c: char) -> bool {
    c == '\n' || c == '\r'
}

/// The sets of characters that the scanning rules consume in runs.
#[derive(Debug, Clone, Copy, PartialEq, Eq, Structural)]
pub enum CharClass {
    /// Horizontal whitespace.
    Space,
    /// Class names: ASCII letters and digits, `-` and `_`.
    ClassName,
    /// Custom-property, mixin and pseudo-class names.
    Name,
    /// `$variable` names.
    VarName,
    /// The body of `@import`, `@include` and `@use`.
    Directive,
    /// Property values.
    Value,
    /// Anything but a line end.
    LineRest,
}

pub open spec fn in_class(k: CharClass, c: char) -> bool {
    match k {
        CharClass::Space => is_horizontal_space(c),
        CharClass::ClassName => is_alnum(c) || c == '-' || c == '_',
        CharClass::Name => unicode_alnum(c) || c == '-' || c == '_',
        CharClass::VarName => unicode_alnum(c) || c == '_',
        CharClass::Directive => unicode_alnum(c) || c == '_' || c == '-' || c == '/' || c == '.'
            || c == ',' || c == '"' || c == '\'' || c == ' ' || c == '(' || c == ')',
        CharClass::Value => unicode_alnum(c) || c == ' ' || c == '-' || c == '_' || c == '"' || c
            == '$' || c == '%' || c == '(' || c == ')' || c == ',' || c == '!' || c == '+' || c
            == '*' || c == '.' || c == '\n' || c == '\t' || c == '/' || c == '#',
        CharClass::LineRest => !is_line_end(c),
    }
}

/// Characters accumulated into an element or property name: letters and
/// other alphanumerics, `-`, `_` and space.
pub open spec fn is_element_char(c: char) -> bool {
    unicode_alpha(c) || unicode_alnum(c) || c == '-' || c == '_' || c == ' '
}

fn alnum(c: char) -> (r: bool)
    ensures
        r == is_alnum(c),
{
    ('a' <= c && c <= 'z') || ('A' <= c && c <= 'Z') || ('0' <= c && c <= '9')
}

fn whitespace(c: char) -> (r: bool)
    ensures
        r == is_whitespace(c),
{
    ('\t' <= c && c <= '\r') || c == ' ' || c == '\u{85}' || c == '\u{A0}' || c == '\u{1680}'
        || ('\u{2000}' <= c && c <= '\u{200A}') || c == '\u{2028}' || c == '\u{2029}' || c
        == '\u{202F}' || c == '\u{205F}' || c == '\u{3000}'
}

fn horizontal_space(c: char) -> (r: bool)
    ensures
        r == is_horizontal_space(c),
{
    whitespace(c) && c != '\n' && c != '\r'
}

fn element_char(c: char) -> (r: bool)
    ensures
        r == is_element_char(c),
{
    alphabetic(c) || alphanumeric(c) || c == '-' || c == '_' || c == ' '
}

fn class_contains(k: CharClass, c: char) -> (r: bool)
    ensures
        r == in_class(k, c),
{
    match k {
        CharClass::Space => horizontal_space(c),
        CharClass::ClassName => alnum(c) || c == '-' || c == '_',
        CharClass::Name => alphanumeric(c) || c == '-' || c == '_',
        CharClass::VarName => alphanumeric(c) || c == '_',
        CharClass::Directive => alphanumeric(c) || c == '_' || c == '-' || c == '/' || c == '.'
            || c == ',' || c == '"' || c == '\'' || c == ' ' || c == '(' || c == ')',
        CharClass::Value => alphanumeric(c) || c == ' ' || c == '-' || c == '_' || c == '"' || c
            == '$' || c == '%' || c == '(' || c == ')' || c == ',' || c == '!' || c == '+' || c
            == '*' || c == '.' || c == '\n' || c == '\t' || c == '/' || c == '#',
        CharClass::LineRest => c != '\n' && c != '\r',
    }
}

// ---------------------------------------------------------------------------
// The scanning rules, as mathematics
// ---------------------------------------------------------------------------

/// The end of the longest run of characters of class `k` that starts at `p`.
pub open spec fn run_end(s: Seq<char>, p: int, k: CharClass) -> int
    decreases s.len() - p,
{
    if 0 <= p < s.len() && in_class(k, s[p]) {
        run_end(s, p + 1, k)
    } else {
        p
    }
}

/// The position of the first `*/` at or after `p`, or the end of `s`.
pub open spec fn close_at(s: Seq<char>, p: int) -> int
    decreases s.len() - p,
{
    if 0 <= p && p + 1 < s.len() {
        if s[p] == '*' && s[p + 1] == '/' {
            p
        } else {
            close_at(s, p + 1)
        }
    } else {
        s.len() as int
    }
}

/// The character after position `p`, if any.
pub open spec fn lookahead(s: Seq<char>, p: int) -> Option<char> {
    if 0 <= p + 1 < s.len() {
        Some(s[p + 1])
    } else {
        None
    }
}

/// The scanning rule chosen by a character and the one after it.
#[derive(Debug, Clone, Copy, PartialEq, Eq, Structural)]
pub enum Rule {
    LineFeed,
    CarriageReturn,
    Indent,
    LineComment,
    BlockComment,
    Punct(Operator),
    CssVariable,
    Variable,
    Class,
    ImportOrInclude,
    Use,
    MixinOrMedia,
    NestedClass,
    PseudoClass,
    ElementOrProperty,
    Unexpected,
}

pub open spec fn punct_of(c: char) -> Option<Operator> {
    if c == '{' {
        Some(Operator::LBrace)
    } else if c == '}' {
        Some(Operator::RBrace)
    } else if c == '(' {
        Some(Operator::LParen)
    } else if c == ')' {
        Some(Operator::RParen)
    } else if c == ':' {
        Some(Operator::Colon)
    } else if c == ';' {
        Some(Operator::Semicolon)
    } else if c == '+' {
        Some(Operator::Plus)
    } else {
        None
    }
}

/// The dispatch table: which rule `c`, followed by `n`, selects.
pub open spec fn rule_of(c: char, n: Option<char>) -> Rule {
    if c == '\n' {
        Rule::LineFeed
    } else if c == '\r' {
        Rule::CarriageReturn
    } else if is_horizontal_space(c) {
        Rule::Indent
    } else if c == '/' && n == Some('/') {
        Rule::LineComment
    } else if c == '/' && n == Some('*') {
        Rule::BlockComment
    } else if punct_of(c) is Some {
        Rule::Punct(punct_of(c)->0)
    } else if c == '-' && n == Some('-') {
        Rule::CssVariable
    } else if c == '$' {
        Rule::Variable
    } else if c == '.' {
        Rule::Class
    } else if c == '@' && n == Some('i') {
        Rule::ImportOrInclude
    } else if c == '@' && n == Some('u') {
        Rule::Use
    } else if c == '@' && n == Some('m') {
        Rule::MixinOrMedia
    } else if c == '&' && (n == Some(' ') || n == Some('.')) {
        Rule::NestedClass
    } else if c == '&' && n == Some(':') {
        Rule::PseudoClass
    } else if unicode_alpha(c) || c == '_' {
        Rule::ElementOrProperty
    } else {
        Rule::Unexpected
    }
}

/// The outcome of one scanning step: a token and the position after it, or
/// the position of a character that cannot be scanned.
pub enum Step {
    Emit(TokenView, int),
    Fail(int),
}

/// A token whose lexeme is the run of class `k` from `p`.
pub open spec fn run_token(s: Seq<char>, p: int, k: CharClass, kind: KindView) -> Step {
    let e = run_end(s, p, k);
    Step::Emit(tok(kind, s.subrange(p, e)), e)
}

/// A property value starting at `p`: characters of the value class up to a
/// `;` (consumed, not kept) or the end of the input.
pub open spec fn value_scan(s: Seq<char>, p: int, name: Seq<char>) -> Step {
    let e = run_end(s, p, CharClass::Value);
    if e >= s.len() {
        Step::Emit(tok(KindView::Property(name), s.subrange(p, e)), e)
    } else if s[e] == ';' {
        Step::Emit(tok(KindView::Property(name), s.subrange(p, e)), e + 1)
    } else {
        Step::Fail(e)
    }
}

/// An element or a property name, accumulated in `acc` from position `p` on.
/// A `:` right after an accumulated character is skipped; when a space
/// follows it, the name is a property's and its value comes next.
pub open spec fn element_scan(s: Seq<char>, p: int, acc: Seq<char>) -> Step
    decreases s.len() - p,
{
    if 0 <= p < s.len() && is_element_char(s[p]) {
        let acc2 = acc.push(s[p]);
        if p + 1 < s.len() && s[p + 1] == ':' {
            if p + 2 < s.len() && s[p + 2] == ' ' {
                value_scan(s, p + 3, acc2)
            } else {
                element_scan(s, p + 2, acc2)
            }
        } else {
            element_scan(s, p + 1, acc2)
        }
    } else {
        Step::Emit(tok(KindView::Element, acc), p)
    }
}

/// The position of a nested class's name: after `&`, one optional space and
/// one optional `.`.
pub open spec fn nested_name_start(s: Seq<char>, p: int) -> int {
    let q = if p + 1 < s.len() && s[p + 1] == ' ' {
        p + 2
    } else {
        p + 1
    };
    if q < s.len() && s[q] == '.' {
        q + 1
    } else {
        q
    }
}

/// What rule `r` makes of the input at position `p`.
pub open spec fn apply_rule(s: Seq<char>, p: int, r: Rule) -> Step {
    match r {
        Rule::LineFeed => Step::Emit(tok(KindView::Op(Operator::NewLine), "\\n"@), p + 1),
        Rule::CarriageReturn => Step::Emit(tok(KindView::Op(Operator::NewLine), "\\r"@), p + 1),
        Rule::Indent => {
            let e = run_end(s, p, CharClass::Space);
            Step::Emit(tok(KindView::Indent((e - p) as nat), Seq::empty()), e)
        },
        Rule::LineComment => run_token(s, p + 2, CharClass::LineRest, KindView::Comment),
        Rule::BlockComment => {
            let e = close_at(s, p + 2);
            Step::Emit(
                tok(KindView::Comment, s.subrange(p + 2, e)),
                if e < s.len() {
                    e + 2
                } else {
                    e
                },
            )
        },
        Rule::Punct(op) => Step::Emit(tok(KindView::Op(op), seq![s[p]]), p + 1),
        Rule::CssVariable => run_token(s, p + 2, CharClass::Name, KindView::CssVariable),
        Rule::Variable => run_token(s, p + 1, CharClass::VarName, KindView::Variable),
        Rule::Class => run_token(s, p + 1, CharClass::ClassName, KindView::Class(false)),
        Rule::ImportOrInclude => run_token(
            s,
            p + 1,
            CharClass::Directive,
            if p + 2 < s.len() && s[p + 2] == 'n' {
                KindView::Include
            } else {
                KindView::Import
            },
        ),
        Rule::Use => run_token(s, p + 1, CharClass::Directive, KindView::Include),
        Rule::MixinOrMedia => if p + 2 < s.len() && s[p + 2] == 'e' {
            Step::Emit(tok(KindView::Media, "media"@), run_end(s, p + 1, CharClass::LineRest))
        } else {
            run_token(s, p + 1, CharClass::Name, KindView::Mixin)
        },
        Rule::NestedClass => run_token(
            s,
            nested_name_start(s, p),
            CharClass::ClassName,
            KindView::Class(true),
        ),
        Rule::PseudoClass => {
            let e = run_end(s, p + 2, CharClass::Name);
            Step::Emit(tok(KindView::Property(s.subrange(p + 2, e)), Seq::empty()), e)
        },
        Rule::ElementOrProperty => element_scan(s, p, Seq::empty()),
        Rule::Unexpected => Step::Fail(p),
    }
}

/// One scanning step at position `p`, which is inside `s`.
pub open spec fn scan_step(s: Seq<char>, p: int) -> Step {
    apply_rule(s, p, rule_of(s[p], lookahead(s, p)))
}

/// The tokens of `s` from position `p` on, ending in `EOF`, or the position of
/// the first character that cannot be scanned.
pub open spec fn scan_from(s: Seq<char>, p: int) -> Result<Seq<TokenView>, int>
    decreases s.len() - p,
{
    if p < 0 || p >= s.len() {
        Ok(seq![tok(KindView::EOF, Seq::empty())])
    } else {
        match scan_step(s, p) {
            Step::Emit(t, q) => if p < q <= s.len() {
                match scan_from(s, q) {
                    Ok(rest) => Ok(seq![t] + rest),
                    Err(e) => Err(e),
                }
            } else {
                Err(p)
            },
            Step::Fail(e) => Err(e),
        }
    }
}

/// The tokens of a whole input.
pub open spec fn scan(s: Seq<char>) -> Result<Seq<TokenView>, int> {
    scan_from(s, 0)
}


// ---------------------------------------------------------------------------
// Facts about the scanning rules
// ---------------------------------------------------------------------------

pub proof fn lemma_run_end(s: Seq<char>, p: int, k: CharClass)
    requires
        0 <= p <= s.len(),
    ensures
        p <= run_end(s, p, k) <= s.len(),
        run_end(s, p, k) < s.len() ==> !in_class(k, s[run_end(s, p, k)]),
    decreases s.len() - p,
{
    if p < s.len() && in_class(k, s[p]) {
        lemma_run_end(s, p + 1, k);
    }
}

pub proof fn lemma_close_at(s: Seq<char>, p: int)
    requires
        0 <= p <= s.len(),
    ensures
        p <= close_at(s, p) <= s.len(),
        close_at(s, p) < s.len() ==> close_at(s, p) + 1 < s.len(),
    decreases s.len() - p,
{
    if p + 1 < s.len() && !(s[p] == '*' && s[p + 1] == '/') {
        lemma_close_at(s, p + 1);
    }
}

pub proof fn lemma_value_scan(s: Seq<char>, p: int, name: Seq<char>)
    requires
        0 <= p <= s.len(),
    ensures
        match value_scan(s, p, name) {
            Step::Emit(t, q) => p <= q <= s.len() && !(t.kind is EOF),
            Step::Fail(e) => p <= e < s.len(),
        },
{
    lemma_run_end(s, p, CharClass::Value);
}

pub proof fn lemma_element_scan(s: Seq<char>, p: int, acc: Seq<char>)
    requires
        0 <= p <= s.len(),
    ensures
        match element_scan(s, p, acc) {
            Step::Emit(t, q) => p <= q <= s.len() && !(t.kind is EOF) && (p < s.len()
                && is_element_char(s[p]) ==> p < q),
            Step::Fail(e) => p <= e < s.len(),
        },
    decreases s.len() - p,
{
    if 0 <= p < s.len() && is_element_char(s[p]) {
        let acc2 = acc.push(s[p]);
        if p + 1 < s.len() && s[p + 1] == ':' {
            if p + 2 < s.len() && s[p + 2] == ' ' {
                lemma_value_scan(s, p + 3, acc2);
            } else {
                lemma_element_scan(s, p + 2, acc2);
            }
        } else {
            lemma_element_scan(s, p + 1, acc2);
        }
    }
}

/// Every scanning step inside the input either consumes at least one
/// character and yields a token other than `EOF`, or fails at a position
/// inside the input.
pub proof fn lemma_step_progress(s: Seq<char>, p: int)
    requires
        0 <= p < s.len(),
    ensures
        match scan_step(s, p) {
            Step::Emit(t, q) => p < q <= s.len() && !(t.kind is EOF),
            Step::Fail(e) => p <= e < s.len(),
        },
{
    let c = s[p];
    let n = lookahead(s, p);
    match rule_of(c, n) {
        Rule::Indent => lemma_run_end(s, p, CharClass::Space),
        Rule::LineComment => lemma_run_end(s, p + 2, CharClass::LineRest),
        Rule::BlockComment => lemma_close_at(s, p + 2),
        Rule::CssVariable => lemma_run_end(s, p + 2, CharClass::Name),
        Rule::Variable => lemma_run_end(s, p + 1, CharClass::VarName),
        Rule::Class => lemma_run_end(s, p + 1, CharClass::ClassName),
        Rule::ImportOrInclude => lemma_run_end(s, p + 1, CharClass::Directive),
        Rule::Use => lemma_run_end(s, p + 1, CharClass::Directive),
        Rule::MixinOrMedia => {
            lemma_run_end(s, p + 1, CharClass::LineRest);
            lemma_run_end(s, p + 1, CharClass::Name);
        },
        Rule::NestedClass => lemma_run_end(s, nested_name_start(s, p), CharClass::ClassName),
        Rule::PseudoClass => lemma_run_end(s, p + 2, CharClass::Name),
        Rule::ElementOrProperty => lemma_element_scan(s, p, Seq::empty()),
        _ => {},
    }
}

// ---------------------------------------------------------------------------
// The scanner
// ---------------------------------------------------------------------------

/// Relies on `String::from_iter`: the string holds the given characters, in order.
#[verifier::external_body]
fn chars_to_string(v: &Vec<char>) -> (r: String)
    ensures
        r@ == v@,
{
    String::from_iter(v.iter())
}

/// The characters of `input`, in order.
pub fn chars_of(input: &str) -> (r: Vec<char>)
    ensures
    r@ == input@,
{
    let mut it = input.chars();
    let mut chars: Vec<char> = Vec::new();
    loop
        invariant
            chars@ + it.remaining() == input@,
            it.obeys_prophetic_iter_laws(),
            IteratorSpec::decrease(&it) is Some,
        ensures
            chars@ == input@,
        decreases IteratorSpec::decrease(&it)->0,
    {
        match it.next() {
            Some(c) => chars.push(c),
            None => {
                assert(chars@ + it.remaining() =~= chars@);
                break;
            },
        }
    }
    chars
}

/// Whether `r` and the cursor `q` are what `step` prescribes.
pub open spec fn step_done(s: Seq<char>, q: int, r: Result<Token, LexicalError>, step: Step) -> bool {
    match step {
        Step::Emit(t, e) => match r {
            Ok(tk) => tk@ == t && q == e,
            Err(_) => false,
        },
        Step::Fail(e) => match r {
            Ok(_) => false,
            Err(err) => err.position == e && 0 <= e < s.len() && err.character == s[e] && q == e,
        },
    }
}

/// A single-pass scanner over the characters of one input.
pub struct Lexer {
    chars: Vec<char>,
    pos: usize,
}

impl Lexer {
    /// The characters being scanned.
    pub closed spec fn text(&self) -> Seq<char> {
        self.chars@
    }

    /// The position of the current character.
    pub closed spec fn cursor(&self) -> int {
        self.pos as int
    }

    pub closed spec fn wf(&self) -> bool {
        self.pos <= self.chars@.len() <= usize::MAX
    }

    /// A scanner positioned on the first character of `input`.
    pub fn new(input: &str) -> (r: Lexer)
        ensures
            r.wf(),
            r.text() == input@,
            r.cursor() == 0,
    {
        let chars = chars_of(input);
        // Reading the length records that it fits in a `usize`.
        let count = chars.len();
        assert(count == chars@.len());
        Lexer { chars, pos: 0 }
    }

    /// The number of characters consumed so far.
    pub fn position(&self) -> (r: usize)
        requires
            self.wf(),
        ensures
            r == self.cursor(),
    {
        self.pos
    }

    /// The character under the cursor, if any is left.
    pub fn current_char(&self) -> (r: Option<char>)
        requires
            self.wf(),
        ensures
            r == (if self.cursor() < self.text().len() {
                Some(self.text()[self.cursor()])
            } else {
                None
            }),
    {
        if self.pos < self.chars.len() {
            Some(self.chars[self.pos])
        } else {
            None
        }
    }

    fn peek(&self) -> (r: Option<char>)
        requires
            self.wf(),
        ensures
            r == lookahead(self.text(), self.cursor()),
    {
        if self.chars.len() - self.pos > 1 {
            Some(self.chars[self.pos + 1])
        } else {
            None
        }
    }

    fn advance(&mut self)
        requires
            old(self).wf(),
            old(self).cursor() < old(self).text().len(),
        ensures
            final(self).wf(),
            final(self).text() == old(self).text(),
            final(self).cursor() == old(self).cursor() + 1,
    {
        self.pos = self.pos + 1;
    }

    /// Consumes the run of characters of class `k` under the cursor.
    fn consume_run(&mut self, k: CharClass) -> (r: Vec<char>)
        requires
            old(self).wf(),
        ensures
            final(self).wf(),
            final(self).text() == old(self).text(),
            final(self).cursor() == run_end(old(self).text(), old(self).cursor(), k),
            r@ == old(self).text().subrange(old(self).cursor(), final(self).cursor()),
    {
        let ghost s = self.chars@;
        let start = self.pos;
        let mut out: Vec<char> = Vec::new();
        while self.pos < self.chars.len() && class_contains(k, self.chars[self.pos])
            invariant
                self.wf(),
                self.chars@ == s,
                s == old(self).text(),
                start == old(self).cursor(),
                start <= self.pos,
                run_end(s, start as int, k) == run_end(s, self.pos as int, k),
                out@ == s.subrange(start as int, self.pos as int),
            decreases s.len() - self.pos,
        {
            out.push(self.chars[self.pos]);
            self.pos = self.pos + 1;
            assert(out@ == s.subrange(start as int, self.pos as int));
        }
        out
    }

    /// Moves the cursor to `to` and consumes the run of class `k` from there.
    fn consume_run_from(&mut self, to: usize, k: CharClass) -> (r: Vec<char>)
        requires
            old(self).wf(),
            to <= old(self).text().len(),
        ensures
            final(self).wf(),
            final(self).text() == old(self).text(),
            final(self).cursor() == run_end(old(self).text(), to as int, k),
            r@ == old(self).text().subrange(to as int, final(self).cursor()),
    {
        self.pos = to;
        self.consume_run(k)
    }

    fn consume_indentation(&mut self) -> (r: Token)
        requires
            old(self).wf(),
            old(self).cursor() < old(self).text().len(),
            is_horizontal_space(old(self).text()[old(self).cursor()]),
        ensures
            final(self).wf(),
            final(self).text() == old(self).text(),
            final(self).cursor() > old(self).cursor(),
            apply_rule(old(self).text(), old(self).cursor(), Rule::Indent) == Step::Emit(
                r@,
                final(self).cursor(),
            ),
    {
        let start = self.pos;
        proof {
            lemma_run_end(self.chars@, start as int, CharClass::Space);
        }
        self.consume_run(CharClass::Space);
        Token { kind: TokenKind::Indent(self.pos - start), value: String::new() }
    }

    fn consume_single_line_comment(&mut self) -> (r: Token)
        requires
            old(self).wf(),
            old(self).cursor() + 1 < old(self).text().len(),
        ensures
            final(self).wf(),
            final(self).text() == old(self).text(),
            apply_rule(old(self).text(), old(self).cursor(), Rule::LineComment) == Step::Emit(
                r@,
                final(self).cursor(),
            ),
    {
        let run = self.consume_run_from(self.pos + 2, CharClass::LineRest);
        Token { kind: TokenKind::Comment, value: chars_to_string(&run) }
    }

    fn consume_multi_line_comment(&mut self) -> (r: Token)
        requires
            old(self).wf(),
            old(self).cursor() + 1 < old(self).text().len(),
        ensures
            final(self).wf(),
            final(self).text() == old(self).text(),
            apply_rule(old(self).text(), old(self).cursor(), Rule::BlockComment) == Step::Emit(
                r@,
                final(self).cursor(),
            ),
    {
        let ghost s = self.chars@;
        let start = self.pos + 2;
        self.pos = start;
        let mut comment: Vec<char> = Vec::new();
        while self.pos < self.chars.len() && !(self.pos + 1 < self.chars.len() && self.chars[self.pos]
            == '*' && self.chars[self.pos + 1] == '/')
            invariant
                self.wf(),
                self.chars@ == s,
                s == old(self).text(),
                start == old(self).cursor() + 2,
                start <= self.pos,
                close_at(s, start as int) == close_at(s, self.pos as int),
                comment@ == s.subrange(start as int, self.pos as int),
            decreases s.len() - self.pos,
        {
            comment.push(self.chars[self.pos]);
            self.pos = self.pos + 1;
            assert(comment@ == s.subrange(start as int, self.pos as int));
        }
        if self.pos < self.chars.len() {
            self.pos = self.pos + 2;
        }
        Token { kind: TokenKind::Comment, value: chars_to_string(&comment) }
    }

    fn consume_variable(&mut self) -> (r: Token)
        requires
            old(self).wf(),
            old(self).cursor() < old(self).text().len(),
        ensures
            final(self).wf(),
            final(self).text() == old(self).text(),
            apply_rule(old(self).text(), old(self).cursor(), Rule::Variable) == Step::Emit(
                r@,
                final(self).cursor(),
            ),
    {
        let run = self.consume_run_from(self.pos + 1, CharClass::VarName);
        Token { kind: TokenKind::Variable, value: chars_to_string(&run) }
    }

    fn consume_class(&mut self) -> (r: Token)
        requires
            old(self).wf(),
            old(self).cursor() < old(self).text().len(),
        ensures
            final(self).wf(),
            final(self).text() == old(self).text(),
            apply_rule(old(self).text(), old(self).cursor(), Rule::Class) == Step::Emit(
                r@,
                final(self).cursor(),
            ),
    {
        let run = self.consume_run_from(self.pos + 1, CharClass::ClassName);
        Token { kind: TokenKind::Class(false), value: chars_to_string(&run) }
    }

    fn consume_nested_class(&mut self) -> (r: Token)
        requires
            old(self).wf(),
            old(self).cursor() < old(self).text().len(),
        ensures
            final(self).wf(),
            final(self).text() == old(self).text(),
            apply_rule(old(self).text(), old(self).cursor(), Rule::NestedClass) == Step::Emit(
                r@,
                final(self).cursor(),
            ),
    {
        self.advance();
        if self.pos < self.chars.len() && self.chars[self.pos] == ' ' {
            self.advance();
        }
        if self.pos < self.chars.len() && self.chars[self.pos] == '.' {
            self.advance();
        }
        let run = self.consume_run(CharClass::ClassName);
        Token { kind: TokenKind::Class(true), value: chars_to_string(&run) }
    }

    fn consume_pseudo_class(&mut self) -> (r: Token)
        requires
            old(self).wf(),
            old(self).cursor() + 1 < old(self).text().len(),
        ensures
            final(self).wf(),
            final(self).text() == old(self).text(),
            apply_rule(old(self).text(), old(self).cursor(), Rule::PseudoClass) == Step::Emit(
                r@,
                final(self).cursor(),
            ),
    {
        let run = self.consume_run_from(self.pos + 2, CharClass::Name);
        Token { kind: TokenKind::Property(chars_to_string(&run)), value: String::new() }
    }

    fn consume_import_or_include(&mut self) -> (r: Token)
        requires
            old(self).wf(),
            old(self).cursor() < old(self).text().len(),
        ensures
            final(self).wf(),
            final(self).text() == old(self).text(),
            apply_rule(old(self).text(), old(self).cursor(), Rule::ImportOrInclude) == Step::Emit(
                r@,
                final(self).cursor(),
            ),
    {
        let is_include = self.chars.len() - self.pos > 2 && self.chars[self.pos + 2] == 'n';
        let run = self.consume_run_from(self.pos + 1, CharClass::Directive);
        let kind = if is_include {
            TokenKind::Include
        } else {
            TokenKind::Import
        };
        Token { kind, value: chars_to_string(&run) }
    }

    fn consume_use(&mut self) -> (r: Token)
        requires
            old(self).wf(),
            old(self).cursor() < old(self).text().len(),
        ensures
            final(self).wf(),
            final(self).text() == old(self).text(),
            apply_rule(old(self).text(), old(self).cursor(), Rule::Use) == Step::Emit(
                r@,
                final(self).cursor(),
            ),
    {
        let run = self.consume_run_from(self.pos + 1, CharClass::Directive);
        Token { kind: TokenKind::Include, value: chars_to_string(&run) }
    }

    fn consume_mixin_or_media(&mut self) -> (r: Token)
        requires
            old(self).wf(),
            old(self).cursor() < old(self).text().len(),
        ensures
            final(self).wf(),
            final(self).text() == old(self).text(),
            apply_rule(old(self).text(), old(self).cursor(), Rule::MixinOrMedia) == Step::Emit(
                r@,
                final(self).cursor(),
            ),
    {
        if self.chars.len() - self.pos > 2 && self.chars[self.pos + 2] == 'e' {
            self.advance();
            return self.consume_media();
        }
        let run = self.consume_run_from(self.pos + 1, CharClass::Name);
        Token { kind: TokenKind::Mixin, value: chars_to_string(&run) }
    }

    fn consume_media(&mut self) -> (r: Token)
        requires
            old(self).wf(),
        ensures
            final(self).wf(),
            final(self).text() == old(self).text(),
            final(self).cursor() == run_end(old(self).text(), old(self).cursor(), CharClass::LineRest),
            r@ == tok(KindView::Media, "media"@),
    {
        self.consume_run(CharClass::LineRest);
        Token { kind: TokenKind::Media, value: String::from_str("media") }
    }

    fn consume_css_variable(&mut self) -> (r: Token)
        requires
            old(self).wf(),
            old(self).cursor() + 1 < old(self).text().len(),
        ensures
            final(self).wf(),
            final(self).text() == old(self).text(),
            apply_rule(old(self).text(), old(self).cursor(), Rule::CssVariable) == Step::Emit(
                r@,
                final(self).cursor(),
            ),
    {
        let run = self.consume_run_from(self.pos + 2, CharClass::Name);
        Token { kind: TokenKind::CssVariable, value: chars_to_string(&run) }
    }

    fn consume_operator(&mut self, op: Operator) -> (r: Token)
        requires
            old(self).wf(),
            old(self).cursor() < old(self).text().len(),
        ensures
            final(self).wf(),
            final(self).text() == old(self).text(),
            apply_rule(old(self).text(), old(self).cursor(), Rule::Punct(op)) == Step::Emit(
                r@,
                final(self).cursor(),
            ),
    {
        let mut v: Vec<char> = Vec::new();
        v.push(self.chars[self.pos]);
        self.advance();
        proof {
            assert(v@ =~= seq![old(self).text()[old(self).cursor()]]);
        }
        Token { kind: TokenKind::Op(op), value: chars_to_string(&v) }
    }

    /// Scans a property value: the value characters up to a `;` (consumed,
    /// not kept) or the end of the input.
    fn consume_property_value(&mut self) -> (r: Result<String, LexicalError>)
        requires
            old(self).wf(),
        ensures
            final(self).wf(),
            final(self).text() == old(self).text(),
            ({
                let s = old(self).text();
                let p = old(self).cursor();
                match value_scan(s, p, Seq::empty()) {
                    Step::Emit(t, q) => r is Ok && r->Ok_0@ == t.value && final(self).cursor()
                        == q,
                    Step::Fail(e) => r == Err::<String, LexicalError>(
                        LexicalError { position: e as usize, character: s[e] },
                    ) && final(self).cursor() == e,
                }
            }),
    {
        let ghost s = self.chars@;
        let ghost p = self.pos as int;
        let run = self.consume_run(CharClass::Value);
        proof {
            lemma_run_end(s, p, CharClass::Value);
        }
        if self.pos >= self.chars.len() {
            Ok(chars_to_string(&run))
        } else if self.chars[self.pos] == ';' {
            self.advance();
            Ok(chars_to_string(&run))
        } else {
            Err(LexicalError { position: self.pos, character: self.chars[self.pos] })
        }
    }

    fn consume_element_or_property(&mut self) -> (r: Result<Token, LexicalError>)
        requires
            old(self).wf(),
        ensures
            final(self).wf(),
            final(self).text() == old(self).text(),
            step_done(
                old(self).text(),
                final(self).cursor(),
                r,
                element_scan(old(self).text(), old(self).cursor(), Seq::empty()),
            ),
    {
        let ghost s = self.chars@;
        let ghost start = self.pos as int;
        let mut acc: Vec<char> = Vec::new();
        loop
            invariant
                self.wf(),
                self.chars@ == s,
                s == old(self).text(),
                start == old(self).cursor(),
                element_scan(s, start, Seq::empty()) == element_scan(s, self.pos as int, acc@),
            decreases s.len() - self.pos,
        {
            if self.pos < self.chars.len() && element_char(self.chars[self.pos]) {
                acc.push(self.chars[self.pos]);
                if self.pos + 1 < self.chars.len() && self.chars[self.pos + 1] == ':' {
                    if self.pos + 2 < self.chars.len() && self.chars[self.pos + 2] == ' ' {
                        self.pos = self.pos + 3;
                        let name = chars_to_string(&acc);
                        proof {
                            lemma_run_end(s, self.pos as int, CharClass::Value);
                        }
                        return match self.consume_property_value() {
                            Ok(value) => Ok(Token { kind: TokenKind::Property(name), value }),
                            Err(e) => Err(e),
                        };
                    } else {
                        self.pos = self.pos + 2;
                    }
                } else {
                    self.pos = self.pos + 1;
                }
            } else {
                return Ok(Token { kind: TokenKind::Element, value: chars_to_string(&acc) });
            }
        }
    }

    /// Applies the rule that `c` and `next` select, `c` being the character
    /// under the cursor and `next` the one after it.
    fn resolve_char_as_token(&mut self, c: char, next: Option<char>) -> (r: Result<
        Token,
        LexicalError,
    >)
        requires
            old(self).wf(),
            old(self).cursor() < old(self).text().len(),
            c == old(self).text()[old(self).cursor()],
            next == lookahead(old(self).text(), old(self).cursor()),
        ensures
            final(self).wf(),
            final(self).text() == old(self).text(),
            step_done(
                old(self).text(),
                final(self).cursor(),
                r,
                scan_step(old(self).text(), old(self).cursor()),
            ),
    {
        let rule = rule_for(c, next);
        match rule {
            Rule::LineFeed => {
                self.advance();
                Ok(Token { kind: TokenKind::Op(Operator::NewLine), value: String::from_str("\\n") })
            },
            Rule::CarriageReturn => {
                self.advance();
                Ok(Token { kind: TokenKind::Op(Operator::NewLine), value: String::from_str("\\r") })
            },
            Rule::Indent => Ok(self.consume_indentation()),
            Rule::LineComment => Ok(self.consume_single_line_comment()),
            Rule::BlockComment => Ok(self.consume_multi_line_comment()),
            Rule::Punct(op) => Ok(self.consume_operator(op)),
            Rule::CssVariable => Ok(self.consume_css_variable()),
            Rule::Variable => Ok(self.consume_variable()),
            Rule::Class => Ok(self.consume_class()),
            Rule::ImportOrInclude => Ok(self.consume_import_or_include()),
            Rule::Use => Ok(self.consume_use()),
            Rule::MixinOrMedia => Ok(self.consume_mixin_or_media()),
            Rule::NestedClass => Ok(self.consume_nested_class()),
            Rule::PseudoClass => Ok(self.consume_pseudo_class()),
            Rule::ElementOrProperty => self.consume_element_or_property(),
            Rule::Unexpected => Err(LexicalError { position: self.pos, character: c }),
        }
    }

    /// Scans the next token. At the end of the input this is `EOF`, and stays
    /// so; before it, each token consumes at least one character.
    pub fn next_token(&mut self) -> (r: Result<Token, LexicalError>)
        requires
            old(self).wf(),
        ensures
            final(self).wf(),
            final(self).text() == old(self).text(),
            old(self).cursor() >= old(self).text().len() ==> r is Ok && r->Ok_0@ == tok(
                KindView::EOF,
                Seq::empty(),
            ) && final(self).cursor() == old(self).cursor(),
            old(self).cursor() < old(self).text().len() ==> step_done(
                old(self).text(),
                final(self).cursor(),
                r,
                scan_step(old(self).text(), old(self).cursor()),
            ),
            r matches Ok(t) && !(t.kind is EOF) ==> old(self).cursor() < final(self).cursor(),
            r matches Ok(t) && t.kind is EOF ==> old(self).cursor() >= old(self).text().len(),
    {
        if self.pos >= self.chars.len() {
            return Ok(Token { kind: TokenKind::EOF, value: String::new() });
        }
        proof {
            lemma_step_progress(self.chars@, self.pos as int);
        }
        let c = self.chars[self.pos];
        let next = self.peek();
        self.resolve_char_as_token(c, next)
    }
}

fn punct_for(c: char) -> (r: Option<Operator>)
    ensures
        r == punct_of(c),
{
    if c == '{' {
        Some(Operator::LBrace)
    } else if c == '}' {
        Some(Operator::RBrace)
    } else if c == '(' {
        Some(Operator::LParen)
    } else if c == ')' {
        Some(Operator::RParen)
    } else if c == ':' {
        Some(Operator::Colon)
    } else if c == ';' {
        Some(Operator::Semicolon)
    } else if c == '+' {
        Some(Operator::Plus)
    } else {
        None
    }
}

/// The dispatch table, as executable code.
pub fn rule_for(c: char, n: Option<char>) -> (r: Rule)
    ensures
        r == rule_of(c, n),
{
    let punct = punct_for(c);
    if c == '\n' {
        Rule::LineFeed
    } else if c == '\r' {
        Rule::CarriageReturn
    } else if horizontal_space(c) {
        Rule::Indent
    } else if c == '/' && n == Some('/') {
        Rule::LineComment
    } else if c == '/' && n == Some('*') {
        Rule::BlockComment
    } else if let Some(op) = punct {
        Rule::Punct(op)
    } else if c == '-' && n == Some('-') {
        Rule::CssVariable
    } else if c == '$' {
        Rule::Variable
    } else if c == '.' {
        Rule::Class
    } else if c == '@' && n == Some('i') {
        Rule::ImportOrInclude
    } else if c == '@' && n == Some('u') {
        Rule::Use
    } else if c == '@' && n == Some('m') {
        Rule::MixinOrMedia
    } else if c == '&' && (n == Some(' ') || n == Some('.')) {
        Rule::NestedClass
    } else if c == '&' && n == Some(':') {
        Rule::PseudoClass
    } else if alphabetic(c) || c == '_' {
        Rule::ElementOrProperty
    } else {
        Rule::Unexpected
    }
}


/// The result of scanning after the tokens `pre` were emitted.
pub open spec fn after(pre: Seq<TokenView>, rest: Result<Seq<TokenView>, int>) -> Result<
    Seq<TokenView>,
    int,
> {
    match rest {
        Ok(ts) => Ok(pre + ts),
        Err(e) => Err(e),
    }
}

/// Scans the whole input: its tokens, ending in a single `EOF`, or the first
/// character that no rule accepts.
pub fn tokenize(input: &str) -> (r: Result<Vec<Token>, LexicalError>)
    ensures
        match scan(input@) {
            Ok(ts) => r is Ok && tokens_view(r->Ok_0@) == ts,
            Err(e) => r is Err && r->Err_0.position == e && 0 <= e < input@.len()
                && r->Err_0.character == input@[e],
        },
{
    let mut lexer = Lexer::new(input);
    let mut out: Vec<Token> = Vec::new();
    loop
        invariant
            lexer.wf(),
            lexer.text() == input@,
            0 <= lexer.cursor() <= input@.len(),
            scan(input@) == after(tokens_view(out@), scan_from(input@, lexer.cursor())),
        decreases input@.len() - lexer.cursor(),
    {
        let ghost s = input@;
        let ghost p = lexer.cursor();
        let ghost pre = tokens_view(out@);
        proof {
            if p < s.len() {
                lemma_step_progress(s, p);
            }
        }
        match lexer.next_token() {
            Ok(t) => {
                let is_end = match t.kind {
                    TokenKind::EOF => true,
                    _ => false,
                };
                let ghost tv = t@;
                out.push(t);
                proof {
                    assert(tokens_view(out@) =~= pre.push(tv));
                }
                if is_end {
                    proof {
                        assert(pre + seq![tv] =~= pre.push(tv));
                    }
                    return Ok(out);
                }
                proof {
                    let q = lexer.cursor();
                    match scan_from(s, q) {
                        Ok(rest) => assert(pre + (seq![tv] + rest) =~= pre.push(tv) + rest),
                        Err(_) => {},
                    }
                }
            },
            Err(e) => {
                return Err(e);
            },
        }
    }
}

proof fn lemma_scan_from_single_eof(s: Seq<char>, p: int)
    requires
        0 <= p,
    ensures
        scan_from(s, p) matches Ok(ts) ==> ts.len() >= 1 && ts.last().kind is EOF && forall|i: int|
            0 <= i < ts.len() - 1 ==> !(#[trigger] ts[i].kind is EOF),
    decreases s.len() - p,
{
    if p < s.len() {
        lemma_step_progress(s, p);
        match scan_step(s, p) {
            Step::Emit(t, q) => {
                lemma_scan_from_single_eof(s, q);
                match scan_from(s, q) {
                    Ok(rest) => {
                        let ts = seq![t] + rest;
                        assert forall|i: int| 0 <= i < ts.len() - 1 implies !(
                        #[trigger] ts[i].kind is EOF) by {
                            if i > 0 {
                                assert(ts[i] == rest[i - 1]);
                            }
                        }
                        assert(ts.last() == rest.last());
                    },
                    Err(_) => {},
                }
            },
            Step::Fail(_) => {},
        }
    }
}

/// A successful scan of any input ends in `EOF`, and that is its only `EOF`.
pub proof fn lemma_scan_single_eof(s: Seq<char>)
    ensures
        scan(s) matches Ok(ts) ==> ts.len() >= 1 && ts.last().kind is EOF && forall|i: int|
            0 <= i < ts.len() - 1 ==> !(#[trigger] ts[i].kind is EOF),
{
    lemma_scan_from_single_eof(s, 0);
}

/// A character that selects no rule fails the scan where it is reached: from
/// that position on, the scan gives an error at that position and no tokens.
pub proof fn lemma_unexpected_character(s: Seq<char>, p: int)
    requires
        0 <= p < s.len(),
        rule_of(s[p], lookahead(s, p)) == Rule::Unexpected,
    ensures
        scan_from(s, p) == Err::<Seq<TokenView>, int>(p),
{
}

/// Where the scan of a prefix reaches position `p` and the character there
/// selects no rule, the whole scan fails at `p`.
pub proof fn lemma_scan_fails_at(s: Seq<char>, pre: Seq<TokenView>, p: int)
    requires
        0 <= p < s.len(),
        scan(s) == after(pre, scan_from(s, p)),
        rule_of(s[p], lookahead(s, p)) == Rule::Unexpected,
    ensures
        scan(s) == Err::<Seq<TokenView>, int>(p),
{
    lemma_unexpected_character(s, p);
}

} // verus!
