//! Front end of a small capability-typed language: a lexer, a parser for
//! declarations and capability annotations, the effect lattice with
//! capability subsumption, and lowering to an intermediate representation.
use vstd::prelude::*;

pub mod ast;
pub mod capability_check;
pub mod charclass;
pub mod ir;
pub mod lexer;
pub mod lower;
pub mod parser;
pub mod typeck;

pub use ast::{Capability, Effect, Expr, Module, ResourceBudget, Stmt, Type};
pub use capability_check::{capability_subsumes, effect_join};
pub use ir::{IrCapability, IrFunction, IrInst, IrModule, IrValue};
pub use lexer::{tokenize, Lexer, Token};
pub use lower::{lower_capability, lower_module, lower_type};
pub use parser::{ParseError, Parser};
pub use typeck::symbol_table::SymbolTable;
pub use typeck::{TypeChecker, TypeError};

use charclass::{is_whitespace, whitespace_class};
use lexer::{chars_of, lemma_skip_ws_bounds, push_char, skip_ws};

verus! {

/// End of the run of non-whitespace characters that starts at `i`.
pub open spec fn word_end(s: Seq<char>, i: int) -> int
    decreases s.len() - i,
{
    if 0 <= i < s.len() && !whitespace_class(s[i]) {
        word_end(s, i + 1)
    } else {
        i
    }
}

/// A word ends at or after its start, within the text.
pub proof fn lemma_word_end_bounds(s: Seq<char>, i: int)
    ensures
        word_end(s, i) >= i,
        0 <= i <= s.len() ==> word_end(s, i) <= s.len(),
    decreases s.len() - i,
{
    if 0 <= i < s.len() && !whitespace_class(s[i]) {
        lemma_word_end_bounds(s, i + 1);
    }
}

/// The maximal runs of non-whitespace characters of `s` from `i`, in order.
pub open spec fn words_from(s: Seq<char>, i: int) -> Seq<Seq<char>>
    decreases s.len() - i,
{
    let p = skip_ws(s, i);
    if p < 0 || p >= s.len() {
        Seq::empty()
    } else {
        proof {
            lemma_skip_ws_bounds(s, i);
            lemma_word_end_bounds(s, p + 1);
        }
        let e = word_end(s, p);
        seq![s.subrange(p, e)] + words_from(s, e)
    }
}

/// Splits text into its whitespace-separated words.
pub fn lex(src: &str) -> (r: Vec<String>)
    ensures
        r@.map_values(|w: String| w@) == words_from(src@, 0),
{
    let chars = chars_of(src);
    let ghost s = src@;
    let mut words: Vec<String> = Vec::new();
    let mut i: usize = 0;
    loop
        invariant
            chars@ == s,
            s == src@,
            i <= s.len(),
            words@.map_values(|w: String| w@) + words_from(s, i as int) == words_from(s, 0),
        decreases s.len() - i,
    {
        let ghost i0 = i as int;
        while i < chars.len() && is_whitespace(chars[i])
            invariant
                chars@ == s,
                i0 <= i <= s.len(),
                skip_ws(s, i as int) == skip_ws(s, i0),
            decreases chars.len() - i,
        {
            i = i + 1;
        }
        proof {
            lemma_skip_ws_bounds(s, i0);
        }
        if i >= chars.len() {
            proof {
                assert(words@.map_values(|w: String| w@) + words_from(s, i as int) =~= words@.map_values(
                    |w: String| w@,
                ));
            }
            return words;
        }
        let start = i;
        let mut word = String::new();
        while i < chars.len() && !is_whitespace(chars[i])
            invariant
                chars@ == s,
                start <= i <= s.len(),
                word_end(s, i as int) == word_end(s, start as int),
                word@ == s.subrange(start as int, i as int),
            decreases chars.len() - i,
        {
            push_char(&mut word, chars[i]);
            i = i + 1;
            proof {
                assert(word@ =~= s.subrange(start as int, i as int));
            }
        }
        proof {
            lemma_word_end_bounds(s, start as int + 1);
        }
        let ghost before = words@.map_values(|w: String| w@);
        words.push(word);
        proof {
            assert(words@.map_values(|w: String| w@) =~= before.push(s.subrange(start as int, i as int)));
            assert(before.push(s.subrange(start as int, i as int)) + words_from(s, i as int) =~= before + (
            seq![s.subrange(start as int, i as int)] + words_from(s, i as int)));
        }
    }
}

} // verus!
