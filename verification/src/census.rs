use crate::syntax::{comma_separated, punct};
use crate::tokens::Token;
use vstd::prelude::*;

verus! {

/// How often `wanted` occurs in the token tree, the tree itself counted.
pub open spec fn token_occurrences(token: Token, wanted: Token) -> nat
    decreases token, 0nat,
{
    let here: nat = if token == wanted {
        1
    } else {
        0
    };
    match token {
        Token::Group(_, inner) => here + occurrences_among(inner, inner.len(), wanted),
        _ => here,
    }
}

/// How often `wanted` occurs in the first `n` of the tokens, at any depth.
pub open spec fn occurrences_among(tokens: Seq<Token>, n: nat, wanted: Token) -> nat
    decreases tokens, n,
{
    if n == 0 || n > tokens.len() {
        0
    } else {
        occurrences_among(tokens, (n - 1) as nat, wanted) + token_occurrences(
            tokens[n - 1],
            wanted,
        )
    }
}

/// How often `wanted` occurs in the tokens, at any depth.
#[verifier::opaque]
pub open spec fn occurrences(tokens: Seq<Token>, wanted: Token) -> nat {
    occurrences_among(tokens, tokens.len(), wanted)
}

proof fn lemma_occurrences_among_prefix(a: Seq<Token>, b: Seq<Token>, n: nat, wanted: Token)
    requires
        n <= a.len(),
    ensures
        occurrences_among(a + b, n, wanted) == occurrences_among(a, n, wanted),
    decreases n,
{
    if n > 0 {
        lemma_occurrences_among_prefix(a, b, (n - 1) as nat, wanted);
    }
}

proof fn lemma_occurrences_among_concat(a: Seq<Token>, b: Seq<Token>, n: nat, wanted: Token)
    requires
        n <= b.len(),
    ensures
        occurrences_among(a + b, a.len() + n, wanted) == occurrences_among(a, a.len(), wanted)
            + occurrences_among(b, n, wanted),
    decreases n,
{
    if n == 0 {
        lemma_occurrences_among_prefix(a, b, a.len(), wanted);
    } else {
        lemma_occurrences_among_concat(a, b, (n - 1) as nat, wanted);
    }
}

/// What occurs in two runs of tokens put together occurs in the one or in the other.
pub broadcast proof fn lemma_occurrences_concat(a: Seq<Token>, b: Seq<Token>, wanted: Token)
    ensures
        #[trigger] occurrences(a + b, wanted) == occurrences(a, wanted) + occurrences(b, wanted),
{
    reveal(occurrences);
    lemma_occurrences_among_concat(a, b, b.len(), wanted);
}

/// A token counts where it is the one wanted, and a group counts with what it holds.
pub broadcast proof fn lemma_token_occurrences(token: Token, wanted: Token)
    ensures
        #[trigger] token_occurrences(token, wanted) == (if token == wanted {
            1nat
        } else {
            0nat
        }) + (match token {
            Token::Group(_, inner) => occurrences(inner, wanted),
            _ => 0,
        }),
{
    reveal(occurrences);
}

/// In a run of up to six tokens, the occurrences are those of its tokens.
pub broadcast proof fn lemma_occurrences_short(tokens: Seq<Token>, wanted: Token)
    requires
        tokens.len() <= 6,
    ensures
        #[trigger] occurrences(tokens, wanted) == (if tokens.len() >= 1 {
            token_occurrences(tokens[0], wanted)
        } else {
            0
        }) + (if tokens.len() >= 2 {
            token_occurrences(tokens[1], wanted)
        } else {
            0
        }) + (if tokens.len() >= 3 {
            token_occurrences(tokens[2], wanted)
        } else {
            0
        }) + (if tokens.len() >= 4 {
            token_occurrences(tokens[3], wanted)
        } else {
            0
        }) + (if tokens.len() >= 5 {
            token_occurrences(tokens[4], wanted)
        } else {
            0
        }) + (if tokens.len() >= 6 {
            token_occurrences(tokens[5], wanted)
        } else {
            0
        }),
{
    reveal(occurrences);
    reveal_with_fuel(occurrences_among, 7);
}

/// The lemmas by which occurrences are counted, token by token and run by run.
pub broadcast group group_occurrences {
    lemma_token_occurrences,
    lemma_occurrences_concat,
    lemma_occurrences_short,
}

/// Items that do not hold a token, put together with commas, do not hold it either.
pub proof fn lemma_comma_separated_without(items: Seq<Seq<Token>>, wanted: Token)
    requires
        forall|i: int| 0 <= i < items.len() ==> occurrences(#[trigger] items[i], wanted) == 0,
        wanted != punct(','),
    ensures
        occurrences(comma_separated(items), wanted) == 0,
    decreases items.len(),
{
    broadcast use group_occurrences;

    if items.len() >= 2 {
        lemma_comma_separated_without(items.drop_last(), wanted);
        assert(occurrences(items.last(), wanted) == 0);
    } else if items.len() == 1 {
        assert(occurrences(items[0], wanted) == 0);
    }
}

} // verus!
