//! Parsing of the attribute's argument tokens and validation of the target
//! item.
//!
//! The argument grammar is `args := marker? shareMarker?` where `marker` is
//! `?Send` and `shareMarker` is `Sync`; the two optional tokens may come in
//! either order and each appears at most once. `?Send` disables the
//! thread-transferability bound, `Sync` enables the thread-shareability
//! bound, and any other token is a syntax error anchored at that token.

use vstd::prelude::*;

use crate::model::{Block, Signature};

verus! {

/// One token of the attribute's argument text.
#[derive(Debug, PartialEq, Eq)]
pub enum ArgToken {
    /// The punctuation token `?`.
    Question,
    /// An identifier token and its text.
    Ident(String),
    /// Any other token.
    Other,
}

/// Mathematical model of an [`ArgToken`].
#[verifier::ext_equal]
pub enum ArgTokenV {
    Question,
    Ident(Seq<char>),
    Other,
}

impl View for ArgToken {
    type V = ArgTokenV;

    open spec fn view(&self) -> ArgTokenV {
        match self {
            ArgToken::Question => ArgTokenV::Question,
            ArgToken::Ident(s) => ArgTokenV::Ident(s@),
            ArgToken::Other => ArgTokenV::Other,
        }
    }
}

impl DeepView for ArgToken {
    type V = ArgTokenV;

    open spec fn deep_view(&self) -> ArgTokenV {
        self@
    }
}

/// The attribute's argument text does not match the grammar.
#[derive(Debug, PartialEq, Eq, Structural)]
pub struct ArgumentSyntaxError {
    /// The index of the offending token in the argument token list; the list's
    /// length when the text ends where a token was still expected, in which
    /// case the caller has no better anchor than its own position.
    pub position: usize,
}

impl ArgumentSyntaxError {
    /// The human-readable message, reporting the accepted forms.
    pub fn message(&self) -> (m: &'static str)
        ensures
            m@ == "expected `?Send` or empty"@,
    {
        "expected `?Send` or empty"
    }
}

/// The annotated item is not an asynchronous function.
#[derive(Debug, PartialEq, Eq, Structural)]
pub struct ItemKindError {}

impl ItemKindError {
    /// The human-readable message; the caller anchors it at the item's start.
    pub fn message(&self) -> (m: &'static str)
        ensures
            m@ == "expected an async function"@,
    {
        "expected an async function"
    }
}

/// The two-flag configuration produced from the attribute's arguments.
#[derive(Clone, Copy, Debug, PartialEq, Eq, Structural)]
pub struct RecursionArgs {
    /// The rewritten return type carries the thread-transferability bound.
    pub send_bound: bool,
    /// The rewritten return type carries the thread-shareability bound.
    pub sync_bound: bool,
}

impl Default for RecursionArgs {
    /// With no arguments the thread-transferability bound is required and the
    /// thread-shareability bound is not.
    fn default() -> (r: Self)
        ensures
            r.send_bound == true,
            r.sync_bound == false,
    {
        RecursionArgs { send_bound: true, sync_bound: false }
    }
}

/// What parsing the argument tokens from position `i` on yields, the tokens
/// before `i` having established the two flags so far: the configuration, or
/// the position of the offending token.
pub open spec fn parse_args_from(
    ts: Seq<ArgTokenV>,
    i: int,
    seen_send: bool,
    seen_sync: bool,
) -> Result<RecursionArgs, int>
    decreases ts.len() - i,
{
    if i < 0 || i >= ts.len() {
        Ok(RecursionArgs { send_bound: !seen_send, sync_bound: seen_sync })
    } else {
        match ts[i] {
            ArgTokenV::Question => {
                if seen_send {
                    Err(i)
                } else if i + 1 < ts.len() && ts[i + 1] == ArgTokenV::Ident("Send"@) {
                    parse_args_from(ts, i + 2, true, seen_sync)
                } else {
                    Err(i + 1)
                }
            },
            ArgTokenV::Ident(w) => {
                if w == "Sync"@ && !seen_sync {
                    parse_args_from(ts, i + 1, seen_send, true)
                } else {
                    Err(i)
                }
            },
            ArgTokenV::Other => Err(i),
        }
    }
}

/// What parsing the whole argument token list yields.
pub open spec fn spec_parse_args(ts: Seq<ArgTokenV>) -> Result<RecursionArgs, int> {
    parse_args_from(ts, 0, false, false)
}

impl RecursionArgs {
    /// Parses the attribute's argument tokens into a configuration, or
    /// reports the offending token of a malformed argument text.
    pub fn parse(tokens: &Vec<ArgToken>) -> (r: Result<RecursionArgs, ArgumentSyntaxError>)
        ensures
            (match spec_parse_args(tokens.deep_view()) {
                Ok(c) => r matches Ok(rc) && rc == c,
                Err(p) => r matches Err(e) && e.position as int == p,
            }),
    {
        let ghost ts = tokens.deep_view();
        let n = tokens.len();
        let send_word: String = "Send".to_owned();
        let sync_word: String = "Sync".to_owned();
        let mut i: usize = 0;
        let mut seen_send = false;
        let mut seen_sync = false;
        while i < n
            invariant
                n == tokens.len(),
                i <= n,
                ts == tokens.deep_view(),
                send_word@ == "Send"@,
                sync_word@ == "Sync"@,
                parse_args_from(ts, i as int, seen_send, seen_sync) == spec_parse_args(ts),
            decreases n - i,
        {
            assert(ts[i as int] == tokens@[i as int]@);
            match &tokens[i] {
                ArgToken::Question => {
                    if seen_send {
                        return Err(ArgumentSyntaxError { position: i });
                    }
                    if i + 1 < n {
                        assert(ts[i as int + 1] == tokens@[i as int + 1]@);
                        let next_is_send = match &tokens[i + 1] {
                            ArgToken::Ident(w) => *w == send_word,
                            _ => false,
                        };
                        if next_is_send {
                            seen_send = true;
                            i = i + 2;
                        } else {
                            return Err(ArgumentSyntaxError { position: i + 1 });
                        }
                    } else {
                        return Err(ArgumentSyntaxError { position: i + 1 });
                    }
                },
                ArgToken::Ident(w) => {
                    if !seen_sync && *w == sync_word {
                        seen_sync = true;
                        i = i + 1;
                    } else {
                        return Err(ArgumentSyntaxError { position: i });
                    }
                },
                ArgToken::Other => {
                    return Err(ArgumentSyntaxError { position: i });
                },
            }
        }
        Ok(RecursionArgs { send_bound: !seen_send, sync_bound: seen_sync })
    }
}

/// A whole function item: its signature and its body.
#[derive(Debug, PartialEq, Eq)]
pub struct AsyncItem {
    pub sig: Signature,
    pub block: Block,
}

impl AsyncItem {
    /// Validates that the target item's signature is declared asynchronous
    /// and wraps the item; any other target is an [`ItemKindError`].
    pub fn new(sig: Signature, block: Block) -> (r: Result<AsyncItem, ItemKindError>)
        ensures
            sig.asyncness ==> (r matches Ok(item) && item.sig == sig && item.block == block),
            !sig.asyncness ==> r is Err,
    {
        if sig.asyncness {
            Ok(AsyncItem { sig, block })
        } else {
            Err(ItemKindError {})
        }
    }
}

} // verus!
