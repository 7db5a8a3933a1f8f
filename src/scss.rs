use vstd::prelude::*;

use crate::lexer::{scan, tokenize, tokens_view, LexicalError, Token, TokenKind, TokenView};

verus! {

/// The views of a sequence of strings.
pub open spec fn strings_view(v: Seq<String>) -> Seq<Seq<char>> {
    v.map_values(|s: String| s@)
}

/// Whether the token is a class selector, plain or nested.
pub open spec fn is_class(t: TokenView) -> bool {
    t.kind is Class
}

/// The class names of `ts`, each once, in the order of their first occurrence.
/// Nesting is not kept: `.a` and `&.a` both give `a`.
pub open spec fn class_names(ts: Seq<TokenView>) -> Seq<Seq<char>>
    decreases ts.len(),
{
    if ts.len() == 0 {
        Seq::empty()
    } else {
        let prev = class_names(ts.drop_last());
        let t = ts.last();
        if is_class(t) && !prev.contains(t.value) {
            prev.push(t.value)
        } else {
            prev
        }
    }
}

/// The class names hold no duplicate, and a name is among them exactly when
/// some class token carries it.
pub proof fn lemma_class_names(ts: Seq<TokenView>)
    ensures
        class_names(ts).no_duplicates(),
        forall|x: Seq<char>|
            class_names(ts).contains(x) <==> exists|i: int|
                0 <= i < ts.len() && is_class(#[trigger] ts[i]) && ts[i].value == x,
    decreases ts.len(),
{
    if ts.len() > 0 {
        let init = ts.drop_last();
        lemma_class_names(init);
        let prev = class_names(init);
        let t = ts.last();
        assert forall|x: Seq<char>|
            class_names(ts).contains(x) <==> exists|i: int|
                0 <= i < ts.len() && is_class(#[trigger] ts[i]) && ts[i].value == x by {
            if class_names(ts).contains(x) {
                if prev.contains(x) {
                    let i = choose|i: int|
                        0 <= i < init.len() && is_class(#[trigger] init[i]) && init[i].value == x;
                    assert(ts[i] == init[i]);
                } else {
                    assert(ts[ts.len() - 1] == t);
                }
            }
            if exists|i: int| 0 <= i < ts.len() && is_class(#[trigger] ts[i]) && ts[i].value == x {
                let i = choose|i: int| 0 <= i < ts.len() && is_class(#[trigger] ts[i]) && ts[i].value == x;
                if i < ts.len() - 1 {
                    assert(init[i] == ts[i]);
                    assert(prev.contains(x));
                    if is_class(t) && !prev.contains(t.value) {
                        assert(prev.push(t.value)[prev.index_of(x)] == x);
                    }
                } else if !prev.contains(x) {
                    assert(prev.push(t.value)[prev.len() as int] == x);
                }
            }
        }
        if is_class(t) && !prev.contains(t.value) {
            let next = prev.push(t.value);
            assert forall|a: int, b: int| 0 <= a < b < next.len() implies next[a] != next[b] by {
                if b == prev.len() {
                    assert(prev.contains(next[a]));
                }
            }
        }
    }
}

/// An input without class tokens has no class names.
pub proof fn lemma_no_classes(ts: Seq<TokenView>)
    requires
        forall|i: int| 0 <= i < ts.len() ==> !is_class(#[trigger] ts[i]),
    ensures
        class_names(ts).len() == 0,
{
    lemma_class_names(ts);
    if class_names(ts).len() > 0 {
        assert(class_names(ts).contains(class_names(ts)[0]));
    }
}

fn contains_string(v: &Vec<String>, x: &String) -> (r: bool)
    ensures
        r == strings_view(v@).contains(x@),
{
    let mut j: usize = 0;
    while j < v.len()
        invariant
            j <= v.len(),
            forall|k: int| 0 <= k < j ==> v@[k]@ != x@,
        decreases v.len() - j,
    {
        if v[j] == *x {
            assert(strings_view(v@)[j as int] == x@);
            return true;
        }
        j = j + 1;
    }
    proof {
        if strings_view(v@).contains(x@) {
            let k = strings_view(v@).index_of(x@);
            assert(v@[k]@ == x@);
        }
    }
    false
}

/// One stylesheet: its path and its tokens.
#[derive(Debug)]
pub struct ScssFile {
    pub tokens: Vec<Token>,
    pub file_path: String,
}

impl ScssFile {
    /// Scans `content`, the text of the file at `file_path`.
    pub fn new(file_path: String, content: &str) -> (r: Result<ScssFile, LexicalError>)
        ensures
            match scan(content@) {
                Ok(ts) => r is Ok && tokens_view(r->Ok_0.tokens@) == ts && r->Ok_0.file_path@
                    == file_path@,
                Err(e) => r is Err && r->Err_0.position == e && 0 <= e < content@.len()
                    && r->Err_0.character == content@[e],
            },
    {
        match tokenize(content) {
            Ok(tokens) => Ok(ScssFile { tokens, file_path }),
            Err(e) => Err(e),
        }
    }

    /// The class names that the file's tokens carry, each once, in the order
    /// in which they first occur.
    pub fn classes(&self) -> (r: Vec<String>)
        ensures
            strings_view(r@) == class_names(tokens_view(self.tokens@)),
    {
        let ghost ts = tokens_view(self.tokens@);
        let mut names: Vec<String> = Vec::new();
        let mut i: usize = 0;
        while i < self.tokens.len()
            invariant
                i <= self.tokens.len(),
                ts == tokens_view(self.tokens@),
                strings_view(names@) == class_names(ts.take(i as int)),
            decreases self.tokens.len() - i,
        {
            let token = &self.tokens[i];
            proof {
                assert(ts.take(i as int + 1).drop_last() =~= ts.take(i as int));
                assert(ts.take(i as int + 1).last() == token@);
            }
            match &token.kind {
                TokenKind::Class(_) => {
                    if !contains_string(&names, &token.value) {
                        let ghost before = names@;
                        names.push(token.value.clone());
                        proof {
                            assert(strings_view(names@) =~= strings_view(before).push(
                                token.value@,
                            ));
                        }
                    }
                },
                _ => {},
            }
            i = i + 1;
        }
        proof {
            assert(ts.take(i as int) =~= ts);
        }
        names
    }
}

} // verus!
