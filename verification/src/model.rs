//! The document model: a tree of elements, text, comments and doctype
//! nodes, together with its mathematical view.

use vstd::prelude::*;

verus! {

/// One node of an HTML document tree. Element and attribute names are the
/// lower-case local names the parser produces; children stand in document
/// order.
#[derive(Debug, PartialEq, Eq)]
pub enum Node {
    /// An element: its tag name, its attributes, and its children.
    Element { name: String, attrs: Vec<(String, String)>, children: Vec<Node> },
    /// A text node.
    Text(String),
    /// A comment.
    Comment(String),
    /// A doctype declaration, by its name.
    Doctype(String),
}

/// The mathematical view of a node: the same tree over sequences of
/// characters.
pub enum SpecNode {
    Element { name: Seq<char>, attrs: Seq<(Seq<char>, Seq<char>)>, children: Seq<SpecNode> },
    Text(Seq<char>),
    Comment(Seq<char>),
    Doctype(Seq<char>),
}

/// The view of an attribute list: each name and value as its character
/// sequence, in the same order.
pub open spec fn attrs_view(s: Seq<(String, String)>) -> Seq<(Seq<char>, Seq<char>)> {
    s.map_values(|p: (String, String)| (p.0@, p.1@))
}

impl View for Node {
    type V = SpecNode;

    open spec fn view(&self) -> SpecNode
        decreases self,
    {
        match self {
            Node::Element { name, attrs, children } => SpecNode::Element {
                name: name@,
                attrs: attrs_view(attrs@),
                children: views_of(children@),
            },
            Node::Text(t) => SpecNode::Text(t@),
            Node::Comment(t) => SpecNode::Comment(t@),
            Node::Doctype(t) => SpecNode::Doctype(t@),
        }
    }
}

/// The views of a sequence of nodes, in order.
pub open spec fn views_of(s: Seq<Node>) -> Seq<SpecNode>
    decreases s,
{
    if s.len() == 0 {
        Seq::empty()
    } else {
        seq![s[0]@] + views_of(s.drop_first())
    }
}

/// `views_of` maps each node to its view.
pub proof fn lemma_views_of(s: Seq<Node>)
    ensures
        views_of(s).len() == s.len(),
        forall|i: int| 0 <= i < s.len() ==> views_of(s)[i] == #[trigger] s[i]@,
    decreases s.len(),
{
    if s.len() > 0 {
        lemma_views_of(s.drop_first());
        assert(views_of(s) == seq![s[0]@] + views_of(s.drop_first()));
        assert forall|i: int| 0 <= i < s.len() implies views_of(s)[i] == #[trigger] s[i]@ by {
            if i > 0 {
                assert(views_of(s)[i] == views_of(s.drop_first())[i - 1]);
                assert(s.drop_first()[i - 1] == s[i]);
            }
        }
    }
}

/// Appending a node appends its view.
pub proof fn lemma_views_of_push(s: Seq<Node>, x: Node)
    ensures
        views_of(s.push(x)) == views_of(s).push(x@),
{
    lemma_views_of(s.push(x));
    lemma_views_of(s);
    assert forall|i: int| 0 <= i < s.len() + 1 implies views_of(s.push(x))[i] == views_of(
        s,
    ).push(x@)[i] by {
        assert(views_of(s.push(x))[i] == s.push(x)[i]@);
        if i < s.len() {
            assert(s.push(x)[i] == s[i]);
        } else {
            assert(s.push(x)[i] == x);
        }
    }
    assert(views_of(s.push(x)) =~= views_of(s).push(x@));
}

} // verus!
