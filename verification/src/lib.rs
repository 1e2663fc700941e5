//! A compile-time comprehension notation:
//!
//!     mapping for pattern in sequence (if guard)*
//!
//! parsed from a token stream and lowered into a lazy filter-and-map
//! iterator pipeline over the sequence.  The host tokenizer, the host
//! expression and pattern grammar, and the splicing of the generated
//! expression back into the program are external collaborators: embedded
//! host constructs reach this crate as opaque symbol tokens, and an
//! embedded expression or pattern is a maximal nonempty run of them.

use vstd::prelude::*;

pub mod codegen;
pub mod parse;
pub mod pipeline;
pub mod token;

use crate::codegen::OutTok;
use crate::codegen::emitted;
use crate::parse::Comprehension;
use crate::parse::SyntaxError;
use crate::parse::comp_error;
use crate::parse::comp_ok;
use crate::parse::parse_end;
use crate::parse::parsed;
use crate::token::Tok;

verus! {

/// Why an expansion was refused: the comprehension itself was malformed, or
/// tokens the grammar does not recognize were left after it (the position
/// of the first such token is carried).
#[derive(Clone, Copy, PartialEq, Eq, Structural, Debug)]
pub enum ExpandError {
    Syntax(SyntaxError),
    Trailing(usize),
}

/// The entry point: parse one comprehension covering the whole input and
/// emit the pipeline expression it denotes.  No partial expansion: a
/// malformed comprehension, or any unconsumed trailing token, refuses the
/// whole input with a structured error instead.
pub fn comp(input: &Vec<Tok>) -> (r: Result<Vec<OutTok>, ExpandError>)
    ensures
        match r {
            Ok(out) => {
                &&& comp_ok(input@)
                &&& parse_end(input@) == input@.len()
                &&& out@ == emitted(parsed(input@))
            },
            Err(e) => match e {
                ExpandError::Syntax(s) => !comp_ok(input@) && s == comp_error(input@),
                ExpandError::Trailing(pos) => {
                    &&& comp_ok(input@)
                    &&& parse_end(input@) < input@.len()
                    &&& pos == parse_end(input@)
                },
            },
        },
{
    let (c, end) = match Comprehension::parse(input) {
        Ok(p) => p,
        Err(e) => {
            return Err(ExpandError::Syntax(e));
        },
    };
    if end < input.len() {
        return Err(ExpandError::Trailing(end));
    }
    let mut out: Vec<OutTok> = Vec::new();
    c.to_tokens(&mut out);
    Ok(out)
}

} // verus!
