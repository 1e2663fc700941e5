use vstd::prelude::*;

verus! {

/// One token of the comprehension notation, as delivered by the host
/// tokenizer: the three keywords the grammar itself reads, and every other
/// host token as an opaque symbol identified by a number.
#[derive(Clone, Copy, PartialEq, Eq, Structural, Debug)]
pub enum Tok {
    KwFor,
    KwIn,
    KwIf,
    Sym(u64),
}

/// True exactly on the tokens that can belong to an embedded host expression
/// or pattern: everything except the grammar's own keywords.
pub fn is_sym_tok(t: &Tok) -> (r: bool)
    ensures
        r == (t is Sym),
{
    match t {
        Tok::Sym(_) => true,
        _ => false,
    }
}

} // verus!
