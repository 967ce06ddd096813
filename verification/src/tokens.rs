//! The token-stream engine: the same rewriting on a flat sequence of tokens,
//! without any knowledge of declarations and scopes.
//!
//! It is no replacement for the tree folder. It recognises a call by the
//! member name alone; it replaces whatever stands between the parentheses
//! that follow the name, so it is right only for calls without arguments;
//! and it never adds a declaration: the macro that it writes has to be in
//! scope where the tokens stand.

use crate::error::RewriteError;
use crate::folder::RewriteUnwraps;
use crate::mode::{mode_of, parse_mode, Mode};
use crate::names::{extension_names, extension_of};
use crate::span::{Span, SpanView};
use vstd::prelude::*;

verus! {

/// The macro that yields the call site of the place where it stands.
pub const CALL_SITE_MACRO: &'static str = "call_site";

/// How a group of tokens is enclosed.
#[derive(Clone, Copy, Debug, PartialEq, Eq)]
pub enum Delimiter {
    /// `( ... )`
    Parenthesis,
    /// `{ ... }`
    Brace,
    /// `[ ... ]`
    Bracket,
    /// Nothing that shows in the text.
    Invisible,
}

/// Whether an operator is followed by another one at once.
#[derive(Clone, Copy, Debug, PartialEq, Eq)]
pub enum Spacing {
    Alone,
    Joint,
}

/// What a token is.
#[derive(Debug, PartialEq, Eq)]
pub enum TokenNode {
    /// A delimited sequence of tokens.
    Group(Delimiter, Vec<TokenTree>),
    /// A word: an identifier or a keyword.
    Term(String),
    /// An operator of one character.
    Op(char, Spacing),
    /// A literal, held as its text.
    Literal(String),
}

/// A token with its position.
#[derive(Debug, PartialEq, Eq)]
pub struct TokenTree {
    pub span: Span,
    pub kind: TokenNode,
}

/// What a [`TokenNode`] means in contracts.
pub enum TokenNodeView {
    Group(Delimiter, Seq<TokenView>),
    Term(Seq<char>),
    Op(char, Spacing),
    Literal(Seq<char>),
}

/// What a [`TokenTree`] means in contracts.
pub struct TokenView {
    pub span: SpanView,
    pub kind: TokenNodeView,
}

impl TokenTree {
    /// The token and what it encloses as a value of contracts.
    pub open spec fn model(self) -> TokenView
        decreases self,
    {
        TokenView {
            span: self.span@,
            kind: match self.kind {
                TokenNode::Group(delimiter, inner) => TokenNodeView::Group(
                    delimiter,
                    Seq::new(
                        inner@.len(),
                        |i: int|
                            if 0 <= i < inner@.len() {
                                inner@[i].model()
                            } else {
                                arbitrary()
                            },
                    ),
                ),
                TokenNode::Term(name) => TokenNodeView::Term(name@),
                TokenNode::Op(sign, spacing) => TokenNodeView::Op(sign, spacing),
                TokenNode::Literal(text) => TokenNodeView::Literal(text@),
            },
        }
    }

    /// The views of a sequence of tokens, one for one.
    pub open spec fn views(tokens: Seq<TokenTree>) -> Seq<TokenView> {
        Seq::new(tokens.len(), |i: int| tokens[i]@)
    }

    /// The view of a group holds the views of the tokens of the group.
    pub proof fn lemma_group(self)
        ensures
            self@.span == self.span@,
            match self.kind {
                TokenNode::Group(delimiter, inner) => self@.kind == TokenNodeView::Group(
                    delimiter,
                    TokenTree::views(inner@),
                ),
                TokenNode::Term(name) => self@.kind == TokenNodeView::Term(name@),
                TokenNode::Op(sign, spacing) => self@.kind == TokenNodeView::Op(sign, spacing),
                TokenNode::Literal(text) => self@.kind == TokenNodeView::Literal(text@),
            },
    {
        match self.kind {
            TokenNode::Group(delimiter, inner) => {
                assert(self@.kind->Group_1 =~= TokenTree::views(inner@));
            },
            _ => {},
        }
    }

    /// The token `kind` at `span`.
    pub fn new(kind: TokenNode, span: Span) -> (r: TokenTree)
        ensures
            r.kind == kind,
            r.span == span,
    {
        TokenTree { span, kind }
    }
}

impl View for TokenTree {
    type V = TokenView;

    open spec fn view(&self) -> TokenView {
        self.model()
    }
}

/// Whether `token` is one of the member names that are rewritten.
pub open spec fn is_target(token: TokenView) -> bool {
    token.kind matches TokenNodeView::Term(name) && extension_of(name) is Some
}

/// The name that stands in for the word `name`: that of the extension
/// function for a member that is rewritten, and `name` itself otherwise.
pub open spec fn renamed(name: Seq<char>) -> Seq<char> {
    match extension_of(name) {
        Some((function, _)) => function,
        None => name,
    }
}

/// What is written between the parentheses of a rewritten call: the tokens
/// of `(call_site!())`, every one of them at `span`.
pub open spec fn call_site_tokens(span: SpanView) -> Seq<TokenView> {
    seq![
        TokenView {
            span,
            kind: TokenNodeView::Group(
                Delimiter::Parenthesis,
                seq![
                    TokenView { span, kind: TokenNodeView::Term(CALL_SITE_MACRO@) },
                    TokenView { span, kind: TokenNodeView::Op('!', Spacing::Alone) },
                    TokenView {
                        span,
                        kind: TokenNodeView::Group(Delimiter::Parenthesis, Seq::empty()),
                    },
                ],
            ),
        },
    ]
}

/// Whether `token` is the argument list of a call that is rewritten: a
/// group in parentheses that follows one of the member names at once.
pub open spec fn follows_target(before: Option<TokenView>, token: TokenView) -> bool {
    &&& token.kind matches TokenNodeView::Group(delimiter, _)
    &&& delimiter is Parenthesis
    &&& before matches Some(name)
    &&& is_target(name)
}

/// What becomes of `token`, which stands after `before` in its group.
///
/// A member name that is rewritten is replaced by the name of the extension
/// function. The parentheses that follow it at once get the call site of the
/// name as their whole content. Every other group has its content rewritten
/// by itself, and every other token stays.
pub open spec fn map_token(before: Option<TokenView>, token: TokenView) -> TokenView
    decreases token, 0nat,
{
    match token.kind {
        TokenNodeView::Term(name) => TokenView {
            span: token.span,
            kind: TokenNodeView::Term(renamed(name)),
        },
        TokenNodeView::Group(delimiter, inner) => if follows_target(before, token) {
            TokenView {
                span: token.span,
                kind: TokenNodeView::Group(delimiter, call_site_tokens(before->Some_0.span)),
            }
        } else {
            TokenView {
                span: token.span,
                kind: TokenNodeView::Group(delimiter, map_stream(inner)),
            }
        },
        _ => token,
    }
}

/// The token before the one at `i`, if there is one.
pub open spec fn before(tokens: Seq<TokenView>, i: int) -> Option<TokenView> {
    if 0 < i <= tokens.len() {
        Some(tokens[i - 1])
    } else {
        None
    }
}

/// What becomes of `tokens`: as many tokens, each the image of the one at
/// its place.
pub open spec fn map_stream(tokens: Seq<TokenView>) -> Seq<TokenView>
    decreases tokens, 1nat,
{
    Seq::new(
        tokens.len(),
        |i: int|
            if 0 <= i < tokens.len() {
                map_token(before(tokens, i), tokens[i])
            } else {
                arbitrary()
            },
    )
}

/// The rewriting of `input` by the token-stream engine in the mode that
/// `mode` names. The engine has the plain mode only: it cannot add a
/// declaration, so it refuses `inject` like a mode that it does not know.
pub open spec fn rewritten_tokens(mode: Seq<char>, input: Seq<TokenView>) -> Result<
    Seq<TokenView>,
    RewriteError,
> {
    match mode_of(mode) {
        Ok(Mode::Plain) => Ok(map_stream(input)),
        _ => Err(RewriteError::UnsupportedInvocation),
    }
}

impl RewriteUnwraps {
    /// Generates the content of the parentheses of a rewritten call whose
    /// member name stands at `invoc_span`.
    pub fn gen_call_site(&self, invoc_span: &Span) -> (tokens: Vec<TokenTree>)
        ensures
            TokenTree::views(tokens@) == call_site_tokens(invoc_span@),
    {
        let mut inner: Vec<TokenTree> = Vec::new();
        inner.push(
            TokenTree {
                span: invoc_span.clone(),
                kind: TokenNode::Term(String::from_str(CALL_SITE_MACRO)),
            },
        );
        inner.push(
            TokenTree { span: invoc_span.clone(), kind: TokenNode::Op('!', Spacing::Alone) },
        );
        inner.push(
            TokenTree {
                span: invoc_span.clone(),
                kind: TokenNode::Group(Delimiter::Parenthesis, Vec::new()),
            },
        );
        let group = TokenTree {
            span: invoc_span.clone(),
            kind: TokenNode::Group(Delimiter::Parenthesis, inner),
        };
        let mut tokens: Vec<TokenTree> = Vec::new();
        tokens.push(group);
        proof {
            let expected = call_site_tokens(invoc_span@);
            inner@[0].lemma_group();
            inner@[1].lemma_group();
            inner@[2].lemma_group();
            group.lemma_group();
            assert(inner@[2]@.kind->Group_1 =~= Seq::empty());
            assert(TokenTree::views(inner@) =~= expected[0].kind->Group_1);
        }
        tokens
    }

    /// Rewrites the tokens of one group, and the groups among them in turn.
    pub fn map_tokens(&self, tokens: Vec<TokenTree>) -> (out: Vec<TokenTree>)
        ensures
            TokenTree::views(out@) == map_stream(TokenTree::views(tokens@)),
        decreases tokens,
    {
        let ghost given = tokens@;
        let ghost all = TokenTree::views(given);
        let mut out: Vec<TokenTree> = Vec::new();
        let mut invoc_span: Option<Span> = None;
        for token in it: tokens
            invariant
                it.seq() == given,
                given == tokens@,
                all == TokenTree::views(given),
                out@.len() == it.index(),
                forall|i: int|
                    0 <= i < it.index() ==> (#[trigger] out@[i])@ == map_token(
                        before(all, i),
                        all[i],
                    ),
                match invoc_span {
                    Some(at) => before(all, it.index() as int) matches Some(name) && is_target(
                        name,
                    ) && at@ == name.span,
                    None => before(all, it.index() as int) matches Some(name) ==> !is_target(
                        name,
                    ),
                },
        {
            proof {
                token.lemma_group();
            }
            let TokenTree { span, kind } = token;
            let kind = match kind {
                TokenNode::Term(name) => match extension_names(&name) {
                    Some((function, _)) => {
                        invoc_span = Some(span.clone());
                        TokenNode::Term(function)
                    },
                    None => {
                        invoc_span = None;
                        TokenNode::Term(name)
                    },
                },
                TokenNode::Group(delimiter, inner) => {
                    let content = match (delimiter, &invoc_span) {
                        (Delimiter::Parenthesis, Some(at)) => self.gen_call_site(at),
                        _ => self.map_tokens(inner),
                    };
                    invoc_span = None;
                    TokenNode::Group(delimiter, content)
                },
                other => {
                    invoc_span = None;
                    other
                },
            };
            let mapped = TokenTree { span, kind };
            proof {
                mapped.lemma_group();
            }
            out.push(mapped);
        }
        out
    }
}

/// What the token-stream engine returned, as a value of contracts.
pub open spec fn token_outcome(r: Result<Vec<TokenTree>, RewriteError>) -> Result<
    Seq<TokenView>,
    RewriteError,
> {
    match r {
        Ok(tokens) => Ok(TokenTree::views(tokens@)),
        Err(e) => Err(e),
    }
}

/// Rewrites `input` with the token-stream engine. The only mode is `plain`.
pub fn rewrite_unwraps_tokens(mode: &str, input: Vec<TokenTree>) -> (r: Result<
    Vec<TokenTree>,
    RewriteError,
>)
    ensures
        token_outcome(r) == rewritten_tokens(mode@, TokenTree::views(input@)),
{
    match parse_mode(mode) {
        Ok(Mode::Plain) => {
            let state = RewriteUnwraps::new(Mode::Plain);
            Ok(state.map_tokens(input))
        },
        _ => Err(RewriteError::UnsupportedInvocation),
    }
}

} // verus!
