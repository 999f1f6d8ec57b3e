//! The inliner: every actionable stylesheet reference whose CSS content is
//! at hand is replaced, at its own position, by a `style` element holding
//! that content as its single text child; every other node is left as it
//! is. Contents are consumed in document order, one entry per actionable
//! reference, so that the caller can pair them with the scanner's output.

use vstd::prelude::*;
use crate::model::{Node, SpecNode, attrs_view, lemma_views_of, lemma_views_of_push, views_of};
use crate::scan::{check_actionable, lemma_skip_step, node_links, seq_links, spec_actionable};

verus! {

/// An inline `style` element whose single text child is `css`.
pub open spec fn style_of(css: Seq<char>) -> SpecNode {
    SpecNode::Element {
        name: "style"@,
        attrs: Seq::empty(),
        children: seq![SpecNode::Text(css)],
    }
}

/// The node `n` after inlining, where `cs` holds one content entry per
/// actionable reference in document order and `k` is the index of the
/// entry that belongs to `n`'s own reference, if it has one. An actionable
/// reference whose entry holds content becomes a `style` element; one
/// whose entry is empty stays, its children still processed; every other
/// node keeps its name and attributes, its children still processed.
pub open spec fn apply_node(n: SpecNode, cs: Seq<Option<Seq<char>>>, k: int) -> SpecNode
    decreases n,
{
    match n {
        SpecNode::Element { name, attrs, children } => {
            if spec_actionable(n) {
                if 0 <= k < cs.len() && cs[k] is Some {
                    style_of(cs[k]->0)
                } else {
                    SpecNode::Element { name, attrs, children: apply_seq(children, cs, k + 1) }
                }
            } else {
                SpecNode::Element { name, attrs, children: apply_seq(children, cs, k) }
            }
        },
        _ => n,
    }
}

/// The nodes of `s` after inlining, each at its own position, consuming
/// content entries from `k` on in document order.
pub open spec fn apply_seq(s: Seq<SpecNode>, cs: Seq<Option<Seq<char>>>, k: int) -> Seq<SpecNode>
    decreases s,
{
    if s.len() == 0 {
        Seq::empty()
    } else {
        seq![apply_node(s[0], cs, k)] + apply_seq(s.drop_first(), cs, k + node_links(s[0]))
    }
}

/// One step of a suffix of a node sequence under inlining.
pub proof fn lemma_apply_step(s: Seq<SpecNode>, cs: Seq<Option<Seq<char>>>, k: int, i: int)
    requires
        0 <= i < s.len(),
    ensures
        apply_seq(s.skip(i), cs, k) == seq![apply_node(s[i], cs, k)] + apply_seq(
            s.skip(i + 1),
            cs,
            k + node_links(s[i]),
        ),
{
    assert(s.skip(i)[0] == s[i]);
    assert(s.skip(i).drop_first() =~= s.skip(i + 1));
}

/// Whether `b` keeps `a`'s own data: for an element, the same name and
/// the same attributes; for any other node, the very same node.
pub open spec fn same_shell(a: SpecNode, b: SpecNode) -> bool {
    match a {
        SpecNode::Element { name, attrs, .. } => b matches SpecNode::Element {
            name: n2,
            attrs: a2,
            children: c2,
        } && n2 == name && a2 == attrs,
        _ => b == a,
    }
}

/// A reference that carries the `?external` opt-out marker in its `href`
/// is never actionable: inlining keeps the element's name and attributes
/// as they are, whatever contents are supplied.
pub proof fn lemma_external_marker_untouched(
    name: Seq<char>,
    attrs: Seq<(Seq<char>, Seq<char>)>,
    children: Seq<SpecNode>,
    cs: Seq<Option<Seq<char>>>,
    k: int,
)
    requires
        crate::scan::spec_attr(attrs, "href"@) matches Some(h) && crate::strutil::has_substr(
            h,
            "?external"@,
        ),
    ensures
        !spec_actionable(SpecNode::Element { name, attrs, children }),
        same_shell(
            SpecNode::Element { name, attrs, children },
            apply_node(SpecNode::Element { name, attrs, children }, cs, k),
        ),
{
}

/// Inlining touches a node all or nothing: an actionable reference whose
/// content is supplied becomes a style element holding exactly that
/// content; every other node keeps its kind, its name and its attributes.
pub proof fn lemma_all_or_nothing(n: SpecNode, cs: Seq<Option<Seq<char>>>, k: int)
    ensures
        spec_actionable(n) && 0 <= k < cs.len() && cs[k] is Some ==> apply_node(n, cs, k)
            == style_of(cs[k]->0),
        !(spec_actionable(n) && 0 <= k < cs.len() && cs[k] is Some) ==> same_shell(
            n,
            apply_node(n, cs, k),
        ),
{
}

/// Inlining a sequence of siblings keeps each at its own position: the
/// result has the same length, and the node at each position is the
/// transform of the node that stood there, fed the content entries that
/// follow those of its left siblings.
pub proof fn lemma_positions_preserved(s: Seq<SpecNode>, cs: Seq<Option<Seq<char>>>, k: int)
    ensures
        apply_seq(s, cs, k).len() == s.len(),
        forall|i: int|
            0 <= i < s.len() ==> apply_seq(s, cs, k)[i] == apply_node(
                s[i],
                cs,
                k + seq_links(s.take(i)),
            ),
    decreases s.len(),
{
    if s.len() > 0 {
        lemma_positions_preserved(s.drop_first(), cs, k + node_links(s[0]));
        assert forall|i: int| 0 <= i < s.len() implies apply_seq(s, cs, k)[i] == apply_node(
            s[i],
            cs,
            k + seq_links(s.take(i)),
        ) by {
            if i == 0 {
                assert(s.take(0).len() == 0);
                assert(seq_links(s.take(0)) == 0);
            } else {
                assert(apply_seq(s, cs, k)[i] == apply_seq(s.drop_first(), cs, k + node_links(s[0]))[i
                    - 1]);
                assert(s.drop_first()[i - 1] == s[i]);
                assert(s.take(i)[0] == s[0]);
                assert(s.take(i).drop_first() =~= s.drop_first().take(i - 1));
                assert(seq_links(s.take(i)) == node_links(s[0]) + seq_links(
                    s.drop_first().take(i - 1),
                ));
            }
        }
    }
}

/// Clones an attribute list.
fn clone_attrs(attrs: &Vec<(String, String)>) -> (r: Vec<(String, String)>)
    ensures
        r@ == attrs@,
{
    let mut r: Vec<(String, String)> = Vec::new();
    let mut i: usize = 0;
    while i < attrs.len()
        invariant
            i <= attrs@.len(),
            r@ == attrs@.take(i as int),
        decreases attrs@.len() - i,
    {
        r.push((attrs[i].0.clone(), attrs[i].1.clone()));
        proof {
            assert(r@ =~= attrs@.take(i + 1));
        }
        i += 1;
    }
    proof {
        assert(attrs@.take(attrs@.len() as int) =~= attrs@);
    }
    r
}

/// Inlines under one node: returns the transformed node together with the
/// index of the first content entry not consumed under it.
#[verifier::loop_isolation(false)]
fn inline_node(n: &Node, cs: &Vec<Option<String>>, k: usize) -> (r: (Node, usize))
    requires
        k + node_links(n@) <= cs@.len(),
    ensures
        r.0@ == apply_node(n@, cs.deep_view(), k as int),
        r.1 == k + node_links(n@),
    decreases n,
{
    let ghost csv = cs.deep_view();
    match n {
        Node::Element { name, attrs, children } => {
            let act = check_actionable(name, attrs);
            // binds the content count as a machine word, so that the index
            // arithmetic below is known to fit
            let cs_len = cs.len();
            let ghost cviews = views_of(children@);
            proof {
                assert(n@ == SpecNode::Element {
                    name: name@,
                    attrs: attrs_view(attrs@),
                    children: cviews,
                });
                assert(spec_actionable(n@) == act);
                if act {
                    assert(node_links(n@) == 1 + seq_links(cviews));
                }
                assert(views_of(children@).skip(0) =~= cviews);
            }
            let k0 = if act {
                k + 1
            } else {
                k
            };
            let mut new_children: Vec<Node> = Vec::new();
            let mut kk = k0;
            let mut i: usize = 0;
            while i < children.len()
                invariant
                    i <= children@.len(),
                    kk + seq_links(cviews.skip(i as int)) == k0 + seq_links(cviews),
                    views_of(new_children@) + apply_seq(cviews.skip(i as int), csv, kk as int)
                        =~= apply_seq(cviews, csv, k0 as int),
                decreases children@.len() - i,
            {
                proof {
                    lemma_views_of(children@);
                    lemma_skip_step(cviews, i as int);
                    lemma_apply_step(cviews, csv, kk as int, i as int);
                    assert(*children == (*n)->Element_children);
                    assert(decreases_to!(*n => (*n)->Element_children));
                    assert(decreases_to!(*children => children@));
                    assert(decreases_to!(children@ => children@[i as int]));
                }
                let (c, kc) = inline_node(&children[i], cs, kk);
                proof {
                    lemma_views_of_push(new_children@, c);
                    assert(cviews[i as int] == children@[i as int]@);
                }
                new_children.push(c);
                kk = kc;
                i += 1;
            }
            proof {
                lemma_views_of(children@);
                assert(cviews.skip(cviews.len() as int).len() == 0);
                assert(apply_seq(cviews.skip(cviews.len() as int), csv, kk as int)
                    =~= Seq::<SpecNode>::empty());
                assert(seq_links(cviews.skip(cviews.len() as int)) == 0);
                assert(views_of(new_children@) =~= views_of(new_children@) + apply_seq(
                    cviews.skip(cviews.len() as int),
                    csv,
                    kk as int,
                ));
                assert(views_of(new_children@) =~= apply_seq(cviews, csv, k0 as int));
            }
            if act {
                proof {
                    assert(node_links(n@) == 1 + seq_links(cviews));
                    assert(k < cs@.len());
                    assert(csv[k as int] == cs@[k as int].deep_view());
                }
                match &cs[k] {
                    Some(content) => {
                        let mut style_children: Vec<Node> = Vec::new();
                        style_children.push(Node::Text(content.clone()));
                        let style = Node::Element {
                            name: "style".to_owned(),
                            attrs: Vec::new(),
                            children: style_children,
                        };
                        proof {
                            lemma_views_of_push(Seq::empty(), Node::Text(*content));
                            assert(views_of(Seq::<Node>::empty()).len() == 0);
                            assert(views_of(style_children@) =~= seq![SpecNode::Text(content@)]);
                            assert(attrs_view(Seq::empty()) =~= Seq::<(Seq<char>, Seq<char>)>::empty());
                            assert(style@ == style_of(csv[k as int]->0));
                        }
                        (style, kk)
                    },
                    None => {
                        (
                            Node::Element {
                                name: name.clone(),
                                attrs: clone_attrs(attrs),
                                children: new_children,
                            },
                            kk,
                        )
                    },
                }
            } else {
                (
                    Node::Element {
                        name: name.clone(),
                        attrs: clone_attrs(attrs),
                        children: new_children,
                    },
                    kk,
                )
            }
        },
        Node::Text(t) => (Node::Text(t.clone()), k),
        Node::Comment(t) => (Node::Comment(t.clone()), k),
        Node::Doctype(t) => (Node::Doctype(t.clone()), k),
    }
}

/// Inlines the stylesheet references of a whole document: `contents[i]`
/// holds the CSS text for the `i`-th actionable reference in document
/// order, or nothing, if that reference is to be left untouched.
#[verifier::loop_isolation(false)]
pub fn inline_stylesheets(doc: &Vec<Node>, contents: &Vec<Option<String>>) -> (r: Vec<Node>)
    requires
        seq_links(views_of(doc@)) <= contents@.len(),
    ensures
        views_of(r@) == apply_seq(views_of(doc@), contents.deep_view(), 0),
{
    let ghost dviews = views_of(doc@);
    let ghost csv = contents.deep_view();
    let mut out: Vec<Node> = Vec::new();
    let mut kk: usize = 0;
    let mut i: usize = 0;
    proof {
        assert(dviews.skip(0) =~= dviews);
        assert(views_of(out@).len() == 0);
        assert(views_of(out@) + apply_seq(dviews, csv, 0) =~= apply_seq(dviews, csv, 0));
    }
    while i < doc.len()
        invariant
            i <= doc@.len(),
            kk + seq_links(dviews.skip(i as int)) == seq_links(dviews),
            views_of(out@) + apply_seq(dviews.skip(i as int), csv, kk as int) =~= apply_seq(
                dviews,
                csv,
                0,
            ),
        decreases doc@.len() - i,
    {
        proof {
            lemma_views_of(doc@);
            lemma_skip_step(dviews, i as int);
            lemma_apply_step(dviews, csv, kk as int, i as int);
        }
        let (c, kc) = inline_node(&doc[i], contents, kk);
        proof {
            lemma_views_of_push(out@, c);
            assert(dviews[i as int] == doc@[i as int]@);
        }
        out.push(c);
        kk = kc;
        i += 1;
    }
    proof {
        lemma_views_of(doc@);
        assert(dviews.skip(dviews.len() as int).len() == 0);
        assert(apply_seq(dviews.skip(dviews.len() as int), csv, kk as int)
            =~= Seq::<SpecNode>::empty());
        assert(views_of(out@) =~= views_of(out@) + apply_seq(
            dviews.skip(dviews.len() as int),
            csv,
            kk as int,
        ));
        assert(views_of(out@) =~= apply_seq(dviews, csv, 0));
    }
    out
}

} // verus!
