//! Syntax nodes: what the parser makes of a run of tokens.
//!
//! A [`Node`] owns its text and its children.  Contracts speak of its view,
//! a [`NodeView`], which holds the same tree over `Seq`.

use vstd::prelude::*;
use crate::tokens::Operator;

verus! {

/// The two spellings of a command substitution.
#[derive(Clone, Copy, Debug, PartialEq, Eq, Structural)]
pub enum SubstitutionKind {
    /// `$(...)`
    RoundBracket,
    /// `` `...` ``
    BackQuote,
}

/// The two quotes that group text.
#[derive(Clone, Copy, Debug, PartialEq, Eq, Structural)]
pub enum Quote {
    /// `'`
    Single,
    /// `"`
    Double,
}

/// The character of a grouping quote.
pub open spec fn quote_char(quote: Quote) -> char {
    match quote {
        Quote::Single => '\'',
        Quote::Double => '"',
    }
}

impl From<Quote> for char {
    fn from(quote: Quote) -> (ch: char) {
        match quote {
            Quote::Single => '\'',
            Quote::Double => '"',
        }
    }
}

impl vstd::std_specs::convert::FromSpecImpl<Quote> for char {
    open spec fn obeys_from_spec() -> bool {
        true
    }

    open spec fn from_spec(quote: Quote) -> char {
        quote_char(quote)
    }
}

/// An ordered list of nodes.
pub type Sequence = Vec<Node>;

/// One element of the syntax tree.
#[derive(Debug, PartialEq, Eq)]
#[allow(inconsistent_fields)]
pub enum Node {
    /// Literal text.
    Raw(String),
    /// What stood between a pair of quotes.
    Quoted { kind: Quote, value: Sequence },
    /// `$name`: stands for the value of the variable `name`.
    ParameterExpansion(String),
    /// A nested command line; the output of running it stands in its place.
    Substitution { kind: SubstitutionKind, value: Sequence },
    /// A space, a tab or a newline between words.
    WhiteSpace(char),
    Operator(Operator),
    /// A newline that ends a command inside a substitution.
    Delimiter,
    /// Marks the place where the input ended inside an open construct.
    EOF,
}

/// The mathematical value of a [`Node`].
#[allow(inconsistent_fields)]
pub ghost enum NodeView {
    Raw(Seq<char>),
    Quoted { kind: Quote, value: Seq<NodeView> },
    ParameterExpansion(Seq<char>),
    Substitution { kind: SubstitutionKind, value: Seq<NodeView> },
    WhiteSpace(char),
    Operator(Operator),
    Delimiter,
    EOF,
}

impl View for Node {
    type V = NodeView;

    open spec fn view(&self) -> NodeView
        decreases self,
    {
        match self {
            Node::Raw(text) => NodeView::Raw(text@),
            Node::Quoted { kind, value } => NodeView::Quoted {
                kind: *kind,
                value: Seq::new(
                    value@.len(),
                    |i: int|
                        if 0 <= i < value@.len() {
                            value@[i].view()
                        } else {
                            NodeView::EOF
                        },
                ),
            },
            Node::ParameterExpansion(name) => NodeView::ParameterExpansion(name@),
            Node::Substitution { kind, value } => NodeView::Substitution {
                kind: *kind,
                value: Seq::new(
                    value@.len(),
                    |i: int|
                        if 0 <= i < value@.len() {
                            value@[i].view()
                        } else {
                            NodeView::EOF
                        },
                ),
            },
            Node::WhiteSpace(ch) => NodeView::WhiteSpace(*ch),
            Node::Operator(op) => NodeView::Operator(*op),
            Node::Delimiter => NodeView::Delimiter,
            Node::EOF => NodeView::EOF,
        }
    }
}

/// The views of the nodes of a sequence, in order.
pub open spec fn views(nodes: Seq<Node>) -> Seq<NodeView> {
    Seq::new(nodes.len(), |i: int| nodes[i]@)
}

/// The view of an optional node.
pub open spec fn option_view(node: Option<Node>) -> Option<NodeView> {
    match node {
        Some(node) => Some(node@),
        None => None,
    }
}

/// The view of a quoted node holds the views of its children.
pub proof fn lemma_quoted_view(kind: Quote, value: Sequence)
    ensures
        (Node::Quoted { kind, value })@ == (NodeView::Quoted { kind, value: views(value@) }),
{
    reveal_with_fuel(<Node as View>::view, 2);
    let node = Node::Quoted { kind, value };
    assert(node@->Quoted_value =~= views(value@));
}

/// The view of a substitution holds the views of its children.
pub proof fn lemma_substitution_view(kind: SubstitutionKind, value: Sequence)
    ensures
        (Node::Substitution { kind, value })@ == (NodeView::Substitution {
            kind,
            value: views(value@),
        }),
{
    reveal_with_fuel(<Node as View>::view, 2);
    let node = Node::Substitution { kind, value };
    assert(node@->Substitution_value =~= views(value@));
}

} // verus!
