use vstd::prelude::*;
use crate::parse::ClauseView;
use crate::parse::CompView;
use crate::parse::Comprehension;
use crate::parse::Condition;
use crate::parse::ForIfClause;
use crate::parse::Mapping;
use crate::parse::Pattern;
use crate::parse::conds_view;

verus! {

// The code generator lowers a parsed comprehension into the one target
// expression:
//
//     into_iter ( sequence ) . filter_map ( move | pattern |
//         if true && ( guard_1 ) && ... && ( guard_n ) { wrap ( mapping ) }
//         else { empty } )
//
// where `into_iter` is the host's generic iterable-to-iterator conversion,
// `wrap` builds the present case of the host's option type and `empty` is
// its absent case.  The sequence expression is converted to an iterator
// exactly once; the guards are conjoined left to right onto a literal
// `true`, so zero guards reduce to `true`; the mapping stands only in the
// accepted branch, so it is evaluated only for elements every guard passed.

/// One token of the generated expression: either a source token carried
/// over (by its symbol identifier), or a fixed piece of the pipeline
/// scaffolding.
#[derive(Clone, Copy, PartialEq, Eq, Structural, Debug)]
pub enum OutTok {
    /// A source token, carried over unchanged.
    Sym(u64),
    /// The host's generic iterable-to-iterator conversion operation.
    IntoIter,
    /// The `.filter_map` selector on the iterator.
    FilterMap,
    /// The `move` marker: the closure takes ownership of what it captures.
    KwMove,
    /// A closure parameter delimiter.
    Bar,
    LParen,
    RParen,
    LBrace,
    RBrace,
    /// The branch on the guard conjunction.
    KwIf,
    KwElse,
    /// The base case of the conjunction: a literal `true`.
    LitTrue,
    /// The conjunction operator between guards.
    AndAnd,
    /// The constructor of the present case of the host's option type.
    WrapVal,
    /// The absent case of the host's option type.
    EmptyVal,
}

/// Source tokens carried into the output.
pub open spec fn syms_out(ids: Seq<u64>) -> Seq<OutTok> {
    ids.map_values(|id: u64| OutTok::Sym(id))
}

/// One guard joined onto the conjunction: `&& ( guard )`.
pub open spec fn cond_out(c: Seq<u64>) -> Seq<OutTok> {
    seq![OutTok::AndAnd, OutTok::LParen] + syms_out(c) + seq![OutTok::RParen]
}

/// All guards joined onto the conjunction, left to right.
pub open spec fn conds_out(cs: Seq<Seq<u64>>) -> Seq<OutTok>
    decreases cs.len(),
{
    if cs.len() == 0 {
        Seq::empty()
    } else {
        cond_out(cs[0]) + conds_out(cs.drop_first())
    }
}

pub proof fn lemma_conds_out_push(cs: Seq<Seq<u64>>, c: Seq<u64>)
    ensures
        conds_out(cs.push(c)) == conds_out(cs) + cond_out(c),
    decreases cs.len(),
{
    if cs.len() == 0 {
        assert(cs.push(c).drop_first() =~= cs);
        assert(cs.push(c)[0] == c);
        assert(conds_out(cs.push(c)) =~= conds_out(cs) + cond_out(c));
    } else {
        lemma_conds_out_push(cs.drop_first(), c);
        assert(cs.push(c).drop_first() =~= cs.drop_first().push(c));
        assert(cs.push(c)[0] == cs[0]);
        assert(conds_out(cs.push(c)) =~= conds_out(cs) + cond_out(c));
    }
}

/// The whole generated expression for a parsed comprehension.
pub open spec fn emitted(c: CompView) -> Seq<OutTok> {
    seq![OutTok::IntoIter, OutTok::LParen] + syms_out(c.clause.sequence) + seq![
        OutTok::RParen,
        OutTok::FilterMap,
        OutTok::LParen,
        OutTok::KwMove,
        OutTok::Bar,
    ] + syms_out(c.clause.pattern) + seq![OutTok::Bar, OutTok::KwIf, OutTok::LitTrue]
        + conds_out(c.clause.conditions) + seq![OutTok::LBrace, OutTok::WrapVal, OutTok::LParen]
        + syms_out(c.mapping) + seq![
        OutTok::RParen,
        OutTok::RBrace,
        OutTok::KwElse,
        OutTok::LBrace,
        OutTok::EmptyVal,
        OutTok::RBrace,
        OutTok::RParen,
    ]
}

/// Append the source tokens of one embedded piece to the output.
fn emit_syms(ids: &Vec<u64>, out: &mut Vec<OutTok>)
    ensures
        final(out)@ == old(out)@ + syms_out(ids@),
{
    let mut i: usize = 0;
    while i < ids.len()
        invariant
            i <= ids@.len(),
            out@ == old(out)@ + syms_out(ids@.subrange(0, i as int)),
        decreases ids@.len() - i,
    {
        out.push(OutTok::Sym(ids[i]));
        proof {
            assert(syms_out(ids@.subrange(0, i + 1 as int)) =~= syms_out(
                ids@.subrange(0, i as int),
            ).push(OutTok::Sym(ids@[i as int])));
        }
        i = i + 1;
    }
    proof {
        assert(ids@.subrange(0, ids@.len() as int) =~= ids@);
    }
}

impl Mapping {
    /// Emit the mapping expression's tokens.
    pub fn to_tokens(&self, out: &mut Vec<OutTok>)
        ensures
            final(out)@ == old(out)@ + syms_out(self@),
    {
        emit_syms(&self.expr, out);
    }
}

impl Pattern {
    /// Emit the binding pattern's tokens.
    pub fn to_tokens(&self, out: &mut Vec<OutTok>)
        ensures
            final(out)@ == old(out)@ + syms_out(self@),
    {
        emit_syms(&self.pat, out);
    }
}

impl Condition {
    /// Emit one guard joined onto the conjunction: `&& ( guard )`.
    pub fn to_tokens(&self, out: &mut Vec<OutTok>)
        ensures
            final(out)@ == old(out)@ + cond_out(self@),
    {
        out.push(OutTok::AndAnd);
        out.push(OutTok::LParen);
        emit_syms(&self.expr, out);
        out.push(OutTok::RParen);
        proof {
            assert(out@ =~= old(out)@ + cond_out(self@));
        }
    }
}

impl Comprehension {
    /// Emit the whole pipeline expression for this comprehension.
    pub fn to_tokens(&self, out: &mut Vec<OutTok>)
        ensures
            final(out)@ == old(out)@ + emitted(self@),
    {
        out.push(OutTok::IntoIter);
        out.push(OutTok::LParen);
        emit_syms(&self.for_if_clause.sequence, out);
        out.push(OutTok::RParen);
        out.push(OutTok::FilterMap);
        out.push(OutTok::LParen);
        out.push(OutTok::KwMove);
        out.push(OutTok::Bar);
        self.for_if_clause.pattern.to_tokens(out);
        out.push(OutTok::Bar);
        out.push(OutTok::KwIf);
        out.push(OutTok::LitTrue);
        let mut k: usize = 0;
        let ghost mid = out@;
        while k < self.for_if_clause.conditions.len()
            invariant
                k <= self.for_if_clause.conditions@.len(),
                out@ == mid + conds_out(
                    conds_view(self.for_if_clause.conditions@.subrange(0, k as int)),
                ),
            decreases self.for_if_clause.conditions@.len() - k,
        {
            let ghost pre = self.for_if_clause.conditions@.subrange(0, k as int);
            self.for_if_clause.conditions[k].to_tokens(out);
            proof {
                let post = self.for_if_clause.conditions@.subrange(0, k + 1 as int);
                assert(conds_view(post) =~= conds_view(pre).push(
                    self.for_if_clause.conditions@[k as int]@,
                ));
                lemma_conds_out_push(
                    conds_view(pre),
                    self.for_if_clause.conditions@[k as int]@,
                );
            }
            k = k + 1;
        }
        proof {
            assert(self.for_if_clause.conditions@.subrange(
                0,
                self.for_if_clause.conditions@.len() as int,
            ) =~= self.for_if_clause.conditions@);
        }
        out.push(OutTok::LBrace);
        out.push(OutTok::WrapVal);
        out.push(OutTok::LParen);
        self.mapping.to_tokens(out);
        out.push(OutTok::RParen);
        out.push(OutTok::RBrace);
        out.push(OutTok::KwElse);
        out.push(OutTok::LBrace);
        out.push(OutTok::EmptyVal);
        out.push(OutTok::RBrace);
        out.push(OutTok::RParen);
        proof {
            assert(out@ =~= old(out)@ + emitted(self@));
        }
    }
}

} // verus!
