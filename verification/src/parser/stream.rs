//! A sequence of tokens as the parser sees it: the token at a position,
//! and how many tokens are left from a position on.

use crate::token::TokenV;
use vstd::prelude::*;

verus! {

/// The token at position `i`; `Eof` beyond the end.
pub open spec fn at(ts: Seq<TokenV>, i: nat) -> TokenV {
    if i < ts.len() {
        ts[i as int]
    } else {
        TokenV::Eof
    }
}

/// The number of tokens from position `i` on.
pub open spec fn remaining(ts: Seq<TokenV>, i: nat) -> nat {
    if i <= ts.len() {
        (ts.len() - i) as nat
    } else {
        0
    }
}

} // verus!
