//! The interpreter: one stack of signed 32-bit integers and one dictionary
//! from word name to behaviour. `eval` is verified against the `run_tokens`
//! semantics; `define_word` updates the dictionary and nothing else.

use vstd::hash_map::StringHashMap;
use vstd::prelude::*;

use crate::builtins;
use crate::semantics::{
    builtins_dict, diag_views, dict_view, opt_diag_view, run_builtin, run_token, run_tokens,
    tok_views, RECURSION_LIMIT,
};
use crate::tokenize::{spec_tokenize, tokenize};
use crate::word::{BuiltinOp, Diag, Word, WordView};

verus! {

/// The interpreter's whole state.
pub struct Forth {
    /// The value stack; the last element is the top.
    pub stack: Vec<i32>,
    /// The dictionary: word name to behaviour. Defining a name overwrites any
    /// prior binding, a built-in's included.
    pub dictionary: StringHashMap<Word>,
}

/// The mathematical image of the interpreter: the stack as a sequence, the
/// dictionary as a map from name to word view.
pub struct ForthView {
    pub stack: Seq<i32>,
    pub dict: Map<Seq<char>, WordView>,
}

impl View for Forth {
    type V = ForthView;

    open spec fn view(&self) -> ForthView {
        ForthView { stack: self.stack@, dict: dict_view(self.dictionary@) }
    }
}

/// The view of a dictionary after an insert is the view with the word's view
/// inserted.
proof fn lemma_dict_view_insert(m: Map<Seq<char>, Word>, name: Seq<char>, w: Word)
    ensures
        dict_view(m.insert(name, w)) == dict_view(m).insert(name, w@),
{
    assert(dict_view(m.insert(name, w)) =~= dict_view(m).insert(name, w@));
}

/// The built-in operations, as methods on the interpreter. `Forth`
/// implements it by delegating to the functions of `builtins`.
pub trait BuiltinOps: View<V = ForthView> {
    fn add(&mut self)
        ensures
            final(self)@.stack == run_builtin(BuiltinOp::Add, old(self)@.stack).0,
            final(self)@.dict == old(self)@.dict,
    ;

    fn sub(&mut self)
        ensures
            final(self)@.stack == run_builtin(BuiltinOp::Sub, old(self)@.stack).0,
            final(self)@.dict == old(self)@.dict,
    ;

    fn mul(&mut self)
        ensures
            final(self)@.stack == run_builtin(BuiltinOp::Mul, old(self)@.stack).0,
            final(self)@.dict == old(self)@.dict,
    ;

    fn div(&mut self) -> (d: Option<Diag>)
        ensures
            final(self)@.stack == run_builtin(BuiltinOp::Div, old(self)@.stack).0,
            opt_diag_view(d) == run_builtin(BuiltinOp::Div, old(self)@.stack).1,
            final(self)@.dict == old(self)@.dict,
    ;

    fn dup(&mut self)
        ensures
            final(self)@.stack == run_builtin(BuiltinOp::Dup, old(self)@.stack).0,
            final(self)@.dict == old(self)@.dict,
    ;

    fn drop_word(&mut self)
        ensures
            final(self)@.stack == run_builtin(BuiltinOp::DropWord, old(self)@.stack).0,
            final(self)@.dict == old(self)@.dict,
    ;

    fn swap(&mut self)
        ensures
            final(self)@.stack == run_builtin(BuiltinOp::Swap, old(self)@.stack).0,
            final(self)@.dict == old(self)@.dict,
    ;

    fn over(&mut self)
        ensures
            final(self)@.stack == run_builtin(BuiltinOp::Over, old(self)@.stack).0,
            final(self)@.dict == old(self)@.dict,
    ;
}

impl BuiltinOps for Forth {
    fn add(&mut self) {
        crate::builtins::add(self);
    }

    fn sub(&mut self) {
        crate::builtins::sub(self);
    }

    fn mul(&mut self) {
        crate::builtins::mul(self);
    }

    fn div(&mut self) -> (d: Option<Diag>) {
        crate::builtins::div(self)
    }

    fn dup(&mut self) {
        crate::builtins::dup(self);
    }

    fn drop_word(&mut self) {
        crate::builtins::drop_word(self);
    }

    fn swap(&mut self) {
        crate::builtins::swap(self);
    }

    fn over(&mut self) {
        crate::builtins::over(self);
    }
}

impl Forth {
    /// A fresh interpreter: empty stack, the eight built-ins loaded.
    pub fn new() -> (forth: Forth)
        ensures
            forth@.stack == Seq::<i32>::empty(),
            forth@.dict == builtins_dict(),
    {
        let mut dictionary: StringHashMap<Word> = StringHashMap::new();
        dictionary.insert("+".to_owned(), Word::BuiltIn(BuiltinOp::Add));
        dictionary.insert("-".to_owned(), Word::BuiltIn(BuiltinOp::Sub));
        dictionary.insert("*".to_owned(), Word::BuiltIn(BuiltinOp::Mul));
        dictionary.insert("/".to_owned(), Word::BuiltIn(BuiltinOp::Div));
        dictionary.insert("dup".to_owned(), Word::BuiltIn(BuiltinOp::Dup));
        dictionary.insert("drop".to_owned(), Word::BuiltIn(BuiltinOp::DropWord));
        dictionary.insert("swap".to_owned(), Word::BuiltIn(BuiltinOp::Swap));
        dictionary.insert("over".to_owned(), Word::BuiltIn(BuiltinOp::Over));
        proof {
            assert(dict_view(dictionary@) =~= builtins_dict());
        }
        Forth { stack: Vec::new(), dictionary }
    }

    /// Defines or redefines `name` as the user word with body `tokens`. The
    /// new meaning holds from the next resolution of `name` on; the stack is
    /// untouched.
    pub fn define_word(&mut self, name: &str, tokens: Vec<String>)
        ensures
            final(self)@.stack == old(self)@.stack,
            final(self)@.dict == old(self)@.dict.insert(
                name@,
                WordView::UserDefined(tok_views(tokens@)),
            ),
    {
        let ghost m = self.dictionary@;
        let ghost w = Word::UserDefined(tokens);
        self.dictionary.insert(name.to_owned(), Word::UserDefined(tokens));
        proof {
            lemma_dict_view_insert(m, name@, w);
        }
    }

    /// Splits `input` on whitespace and evaluates the tokens in order against
    /// the current dictionary, with `RECURSION_LIMIT` levels of user-defined
    /// expansion. Returns the diagnostics of the whole line, in order; the
    /// dictionary is never changed by evaluation.
    pub fn eval(&mut self, input: &str) -> (diags: Vec<Diag>)
        ensures
            final(self)@.stack == run_tokens(
                old(self)@.dict,
                old(self)@.stack,
                spec_tokenize(input@),
                RECURSION_LIMIT as nat,
            ).0,
            diag_views(diags@) == run_tokens(
                old(self)@.dict,
                old(self)@.stack,
                spec_tokenize(input@),
                RECURSION_LIMIT as nat,
            ).1,
            final(self)@.dict == old(self)@.dict,
    {
        let tokens = tokenize(input);
        eval_tokens(&self.dictionary, &mut self.stack, &tokens, RECURSION_LIMIT)
    }

    /// The top of the stack without removing it, or `None` on an empty stack.
    pub fn top(&self) -> (r: Option<i32>)
        ensures
            r == if self@.stack.len() == 0 {
                None::<i32>
            } else {
                Some(self@.stack.last())
            },
    {
        if self.stack.len() == 0 {
            None
        } else {
            Some(self.stack[self.stack.len() - 1])
        }
    }

    /// Pushes `value` onto the stack.
    pub fn push(&mut self, value: i32)
        ensures
            final(self)@.stack == old(self)@.stack.push(value),
            final(self)@.dict == old(self)@.dict,
    {
        self.stack.push(value);
    }

    /// Removes and returns the top of the stack, or `None` on an empty stack.
    pub fn pop(&mut self) -> (r: Option<i32>)
        ensures
            old(self)@.stack.len() == 0 ==> r is None && final(self)@.stack == old(self)@.stack,
            old(self)@.stack.len() > 0 ==> r == Some(old(self)@.stack.last()) && final(self)@.stack
                == old(self)@.stack.drop_last(),
            final(self)@.dict == old(self)@.dict,
    {
        self.stack.pop()
    }
}

/// Evaluates `tokens` in order against a fixed dictionary, with `fuel` levels
/// of user-defined expansion left, exactly as `run_tokens` describes.
#[verifier::loop_isolation(false)]
fn eval_tokens(
    dictionary: &StringHashMap<Word>,
    stack: &mut Vec<i32>,
    tokens: &Vec<String>,
    fuel: u32,
) -> (diags: Vec<Diag>)
    ensures
        final(stack)@ == run_tokens(
            dict_view(dictionary@),
            old(stack)@,
            tok_views(tokens@),
            fuel as nat,
        ).0,
        diag_views(diags@) == run_tokens(
            dict_view(dictionary@),
            old(stack)@,
            tok_views(tokens@),
            fuel as nat,
        ).1,
    decreases fuel,
{
    let ghost d = dict_view(dictionary@);
    let ghost toks = tok_views(tokens@);
    let ghost full = run_tokens(d, old(stack)@, toks, fuel as nat);
    let mut diags: Vec<Diag> = Vec::new();
    let mut i: usize = 0;
    proof {
        assert(toks.skip(0) =~= toks);
        assert(diag_views(diags@) =~= Seq::<crate::word::DiagView>::empty());
    }
    while i < tokens.len()
        invariant
            0 <= i <= tokens@.len(),
            run_tokens(d, stack@, toks.skip(i as int), fuel as nat).0 == full.0,
            diag_views(diags@) + run_tokens(d, stack@, toks.skip(i as int), fuel as nat).1
                =~= full.1,
        decreases tokens@.len() - i,
    {
        let ghost stack_before = stack@;
        let ghost diags_before = diags@;
        let ghost step = run_token(d, stack_before, toks[i as int], fuel as nat);
        proof {
            assert(toks.skip(i as int)[0] == toks[i as int]);
            assert(toks.skip(i as int).skip(1) =~= toks.skip(i + 1));
        }
        let token = &tokens[i];
        match dictionary.get(token.as_str()) {
            Some(w) => {
                proof {
                    assert(d.contains_key(token@));
                    assert(d[token@] == dictionary@[token@]@);
                }
                match w {
                    Word::BuiltIn(op) => {
                        let dd = builtins::apply_builtin(*op, stack);
                        if let Some(x) = dd {
                            diags.push(x);
                        }
                    },
                    Word::UserDefined(body) => {
                        if fuel == 0 {
                            diags.push(Diag::RecursionLimitExceeded);
                        } else {
                            let mut sub = eval_tokens(dictionary, stack, body, fuel - 1);
                            proof {
                                assert(dictionary@[token@]@ == WordView::UserDefined(
                                    tok_views(body@),
                                ));
                            }
                            diags.append(&mut sub);
                        }
                    },
                }
            },
            None => {
                match crate::numeral::parse_i32(token.as_str()) {
                    Some(v) => {
                        stack.push(v);
                    },
                    None => {
                        diags.push(Diag::UnknownWord(token.clone()));
                    },
                }
            },
        }
        proof {
            assert(stack@ == step.0);
            assert(diag_views(diags@) =~= diag_views(diags_before) + step.1);
            assert(diag_views(diags@) + run_tokens(d, stack@, toks.skip(i + 1), fuel as nat).1
                =~= full.1);
        }
        i += 1;
    }
    proof {
        assert(toks.skip(tokens@.len() as int) =~= Seq::<Seq<char>>::empty());
    }
    diags
}

} // verus!
