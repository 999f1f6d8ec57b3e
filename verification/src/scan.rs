//! The link scanner: attribute lookup, the predicate that decides whether
//! an element is an actionable stylesheet reference, and the collection of
//! all such references' `href` values in document order.

use vstd::prelude::*;
use crate::model::{Node, SpecNode, attrs_view, views_of};
use crate::strutil::{all_space, all_space_str, contains_substr, has_substr, str_eq};

verus! {

/// The value of the first attribute named `name`, if any.
pub open spec fn spec_attr(attrs: Seq<(Seq<char>, Seq<char>)>, name: Seq<char>) -> Option<
    Seq<char>,
>
    decreases attrs.len(),
{
    if attrs.len() == 0 {
        None
    } else if attrs[0].0 == name {
        Some(attrs[0].1)
    } else {
        spec_attr(attrs.drop_first(), name)
    }
}

/// A prefix whose attribute names all differ from `name` does not change
/// the lookup.
pub proof fn lemma_spec_attr_skip(attrs: Seq<(Seq<char>, Seq<char>)>, name: Seq<char>, i: int)
    requires
        0 <= i <= attrs.len(),
        forall|j: int| 0 <= j < i ==> (#[trigger] attrs[j]).0 != name,
    ensures
        spec_attr(attrs, name) == spec_attr(attrs.skip(i), name),
    decreases i,
{
    if i == 0 {
        assert(attrs.skip(0) =~= attrs);
    } else {
        lemma_spec_attr_skip(attrs, name, i - 1);
        assert(attrs.skip(i - 1)[0] == attrs[i - 1]);
        assert(attrs.skip(i - 1).drop_first() =~= attrs.skip(i));
    }
}

/// Looks up the value of the attribute named `name`.
pub fn get_attr(attrs: &Vec<(String, String)>, name: &str) -> (r: Option<String>)
    ensures
        match r {
            Some(v) => spec_attr(attrs_view(attrs@), name@) == Some(v@),
            None => spec_attr(attrs_view(attrs@), name@) is None,
        },
{
    let ghost av = attrs_view(attrs@);
    let mut i: usize = 0;
    while i < attrs.len()
        invariant
            i <= attrs@.len(),
            av == attrs_view(attrs@),
            av.len() == attrs@.len(),
            forall|j: int| 0 <= j < i ==> (#[trigger] av[j]).0 != name@,
        decreases attrs@.len() - i,
    {
        if str_eq(attrs[i].0.as_str(), name) {
            proof {
                lemma_spec_attr_skip(av, name@, i as int);
                assert(av.skip(i as int)[0] == av[i as int]);
            }
            return Some(attrs[i].1.clone());
        }
        i += 1;
    }
    proof {
        lemma_spec_attr_skip(av, name@, av.len() as int);
        assert(av.skip(av.len() as int).len() == 0);
    }
    None
}

/// Whether an element with this name and these attributes is an actionable
/// stylesheet reference: a `link` element whose `rel` is `stylesheet`,
/// whose `href` is present and not only whitespace, and whose `href` does
/// not carry the `?external` opt-out marker.
pub open spec fn actionable_parts(name: Seq<char>, attrs: Seq<(Seq<char>, Seq<char>)>) -> bool {
    &&& name == "link"@
    &&& spec_attr(attrs, "rel"@) == Some("stylesheet"@)
    &&& match spec_attr(attrs, "href"@) {
        Some(h) => !all_space(h) && !has_substr(h, "?external"@),
        None => false,
    }
}

/// Whether this node is an actionable stylesheet reference.
pub open spec fn spec_actionable(n: SpecNode) -> bool {
    match n {
        SpecNode::Element { name, attrs, .. } => actionable_parts(name, attrs),
        _ => false,
    }
}

/// Decides `actionable_parts` for an element's name and attributes.
pub fn check_actionable(name: &String, attrs: &Vec<(String, String)>) -> (r: bool)
    ensures
        r == actionable_parts(name@, attrs_view(attrs@)),
{
    if !str_eq(name.as_str(), "link") {
        return false;
    }
    let rel_ok = match get_attr(attrs, "rel") {
        Some(v) => str_eq(v.as_str(), "stylesheet"),
        None => false,
    };
    if !rel_ok {
        return false;
    }
    match get_attr(attrs, "href") {
        Some(h) => !all_space_str(h.as_str()) && !contains_substr(h.as_str(), "?external"),
        None => false,
    }
}

/// How many actionable references this node holds, itself included.
pub open spec fn node_links(n: SpecNode) -> nat
    decreases n,
{
    match n {
        SpecNode::Element { children, .. } => (if spec_actionable(n) {
            1nat
        } else {
            0nat
        }) + seq_links(children),
        _ => 0,
    }
}

/// How many actionable references these nodes hold together.
pub open spec fn seq_links(s: Seq<SpecNode>) -> nat
    decreases s,
{
    if s.len() == 0 {
        0
    } else {
        node_links(s[0]) + seq_links(s.drop_first())
    }
}

/// The `href` values of this node's actionable references, in document
/// order: the node's own reference first, then those of its children.
pub open spec fn node_hrefs(n: SpecNode) -> Seq<Seq<char>>
    decreases n,
{
    match n {
        SpecNode::Element { attrs, children, .. } => (if spec_actionable(n) {
            match spec_attr(attrs, "href"@) {
                Some(h) => seq![h],
                None => Seq::empty(),
            }
        } else {
            Seq::empty()
        }) + seq_hrefs(children),
        _ => Seq::empty(),
    }
}

/// The `href` values of these nodes' actionable references, in document
/// order.
pub open spec fn seq_hrefs(s: Seq<SpecNode>) -> Seq<Seq<char>>
    decreases s,
{
    if s.len() == 0 {
        Seq::empty()
    } else {
        node_hrefs(s[0]) + seq_hrefs(s.drop_first())
    }
}

/// Each node contributes as many `href` values as it has references.
pub proof fn lemma_node_hrefs_len(n: SpecNode)
    ensures
        node_hrefs(n).len() == node_links(n),
    decreases n,
{
    match n {
        SpecNode::Element { children, .. } => {
            lemma_seq_hrefs_len(children);
        },
        _ => {},
    }
}

/// A sequence of nodes contributes as many `href` values as it has
/// references.
pub proof fn lemma_seq_hrefs_len(s: Seq<SpecNode>)
    ensures
        seq_hrefs(s).len() == seq_links(s),
    decreases s,
{
    if s.len() > 0 {
        lemma_node_hrefs_len(s[0]);
        lemma_seq_hrefs_len(s.drop_first());
    }
}

/// One step of a suffix of a node sequence, for the traversal loops:
/// the node at `i` contributes its own references first.
pub proof fn lemma_skip_step(s: Seq<SpecNode>, i: int)
    requires
        0 <= i < s.len(),
    ensures
        seq_hrefs(s.skip(i)) == node_hrefs(s[i]) + seq_hrefs(s.skip(i + 1)),
        seq_links(s.skip(i)) == node_links(s[i]) + seq_links(s.skip(i + 1)),
{
    assert(s.skip(i)[0] == s[i]);
    assert(s.skip(i).drop_first() =~= s.skip(i + 1));
}

/// Collects the `href` values of the actionable references under `n`,
/// appending them to `out` in document order.
#[verifier::loop_isolation(false)]
fn scan_node(n: &Node, out: &mut Vec<String>)
    ensures
        final(out).deep_view() == old(out).deep_view() + node_hrefs(n@),
    decreases n,
{
    match n {
        Node::Element { name, attrs, children } => {
            let ghost target = old(out).deep_view() + node_hrefs(n@);
            if check_actionable(name, attrs) {
                match get_attr(attrs, "href") {
                    Some(h) => {
                        let ghost before = out.deep_view();
                        out.push(h);
                        proof {
                            assert(out.deep_view() =~= before.push(h@));
                        }
                    },
                    None => {
                        proof {
                            assert(false);
                        }
                    },
                }
            }
            let mut i: usize = 0;
            proof {
                assert(views_of(children@).skip(0) =~= views_of(children@));
            }
            while i < children.len()
                invariant
                    i <= children@.len(),
                    out.deep_view() + seq_hrefs(views_of(children@).skip(i as int)) =~= target,
                decreases children@.len() - i,
            {
                proof {
                    lemma_views_of_len(children@);
                    lemma_skip_step(views_of(children@), i as int);
                    assert(*children == (*n)->Element_children);
                    assert(decreases_to!(*n => (*n)->Element_children));
                    assert(decreases_to!(*children => children@));
                    assert(decreases_to!(children@ => children@[i as int]));
                }
                scan_node(&children[i], out);
                proof {
                    crate::model::lemma_views_of(children@);
                    assert(views_of(children@)[i as int] == children@[i as int]@);
                }
                i += 1;
            }
            proof {
                lemma_views_of_len(children@);
                assert(views_of(children@).skip(children@.len() as int).len() == 0);
                assert(out.deep_view() =~= target);
            }
        },
        Node::Text(_) => {},
        Node::Comment(_) => {},
        Node::Doctype(_) => {},
    }
}

/// `views_of` keeps the length.
proof fn lemma_views_of_len(s: Seq<Node>)
    ensures
        views_of(s).len() == s.len(),
{
    crate::model::lemma_views_of(s);
}

/// Finds the `href` values of all actionable stylesheet references of the
/// document, in document order: one entry per reference, so that a vector
/// of as many content entries feeds the inliner.
pub fn scan_stylesheets(doc: &Vec<Node>) -> (r: Vec<String>)
    ensures
        r.deep_view() == seq_hrefs(views_of(doc@)),
        r@.len() == seq_links(views_of(doc@)),
{
    proof {
        lemma_seq_hrefs_len(views_of(doc@));
    }
    let mut out: Vec<String> = Vec::new();
    let mut i: usize = 0;
    proof {
        assert(out.deep_view() =~= Seq::<Seq<char>>::empty());
        assert(views_of(doc@).skip(0) =~= views_of(doc@));
        assert(out.deep_view() + seq_hrefs(views_of(doc@)) =~= seq_hrefs(views_of(doc@)));
    }
    while i < doc.len()
        invariant
            i <= doc@.len(),
            out.deep_view() + seq_hrefs(views_of(doc@).skip(i as int)) =~= seq_hrefs(
                views_of(doc@),
            ),
        decreases doc@.len() - i,
    {
        proof {
            lemma_views_of_len(doc@);
            lemma_skip_step(views_of(doc@), i as int);
        }
        scan_node(&doc[i], &mut out);
        proof {
            crate::model::lemma_views_of(doc@);
            assert(views_of(doc@)[i as int] == doc@[i as int]@);
        }
        i += 1;
    }
    proof {
        lemma_views_of_len(doc@);
        assert(views_of(doc@).skip(doc@.len() as int).len() == 0);
        assert(out.deep_view() =~= seq_hrefs(views_of(doc@)));
    }
    out
}

} // verus!
