//! Resolves a stylesheet reference against the directory of the document
//! that holds it: one leading `/` of the reference is stripped (a
//! root-relative reference is treated as relative to the document's
//! directory), and the remainder is joined onto that directory.

use vstd::prelude::*;

verus! {

/// The reference with one leading `/` removed, if it has one.
pub open spec fn strip_root_spec(href: Seq<char>) -> Seq<char> {
    if href.len() > 0 && href[0] == '/' {
        href.subrange(1, href.len() as int)
    } else {
        href
    }
}

/// `rel` appended to the directory `dir`, with a single `/` between them:
/// an empty directory adds no separator, and a directory that already ends
/// in `/` gets no second one.
pub open spec fn join_spec(dir: Seq<char>, rel: Seq<char>) -> Seq<char> {
    if dir.len() == 0 {
        rel
    } else if dir[dir.len() - 1] == '/' {
        dir + rel
    } else {
        dir + seq!['/'] + rel
    }
}

/// The on-disk path of the stylesheet referred to by `href` in a document
/// that lives in the directory `dir`.
pub open spec fn resolve_spec(dir: Seq<char>, href: Seq<char>) -> Seq<char> {
    join_spec(dir, strip_root_spec(href))
}

/// Joins `rel` onto the directory `dir` as `join_spec` says.
pub fn join_path(dir: &str, rel: &str) -> (r: String)
    ensures
        r@ == join_spec(dir@, rel@),
{
    let dir_len = dir.unicode_len();
    if dir_len == 0 {
        let r = rel.to_owned();
        assert(r@ =~= join_spec(dir@, rel@));
        r
    } else if dir.get_char(dir_len - 1) == '/' {
        let mut r = dir.to_owned();
        r.append(rel);
        assert(r@ =~= join_spec(dir@, rel@));
        r
    } else {
        let mut r = dir.to_owned();
        r.append("/");
        r.append(rel);
        proof {
            reveal_strlit("/");
            assert(("/")@ =~= seq!['/']);
        }
        assert(r@ =~= join_spec(dir@, rel@));
        r
    }
}

/// Computes the on-disk CSS path for a reference `href` found in a document
/// in directory `dir`.
pub fn resolve(dir: &str, href: &str) -> (r: String)
    ensures
        r@ == resolve_spec(dir@, href@),
{
    let href_len = href.unicode_len();
    let stripped: &str = if href_len > 0 && href.get_char(0) == '/' {
        href.substring_char(1, href_len)
    } else {
        href
    };
    join_path(dir, stripped)
}

/// The position just after the last `/` of `p`: 0 where `p` has none.
pub open spec fn after_last_slash(p: Seq<char>) -> int
    decreases p.len(),
{
    if p.len() == 0 {
        0
    } else if p[p.len() - 1] == '/' {
        p.len() as int
    } else {
        after_last_slash(p.drop_last())
    }
}

/// The directory that holds the file `p` names: what stands before `p`'s
/// last `/`, the root directory `/` where that separator is `p`'s first
/// character, and the empty string (the current directory) where `p` has
/// no separator at all.
pub open spec fn parent_spec(p: Seq<char>) -> Seq<char> {
    let e = after_last_slash(p);
    if e == 0 {
        Seq::empty()
    } else if e == 1 {
        seq!['/']
    } else {
        p.subrange(0, e - 1)
    }
}

/// Computes the directory that holds the file `p` names.
pub fn parent_dir(p: &str) -> (r: String)
    ensures
        r@ == parent_spec(p@),
{
    let len = p.unicode_len();
    let mut e: usize = len;
    proof {
        assert(p@.take(len as int) =~= p@);
    }
    while e > 0 && p.get_char(e - 1) != '/'
        invariant
            e <= len,
            len == p@.len(),
            after_last_slash(p@) == after_last_slash(p@.take(e as int)),
        decreases e,
    {
        proof {
            assert(p@.take(e as int).drop_last() =~= p@.take(e - 1));
        }
        e -= 1;
    }
    proof {
        if e == 0 {
            assert(p@.take(0).len() == 0);
        } else {
            assert(p@.take(e as int)[e - 1] == p@[e - 1]);
        }
        assert(after_last_slash(p@) == e);
    }
    if e == 0 {
        let r = String::new();
        assert(r@ =~= parent_spec(p@));
        r
    } else if e == 1 {
        let r = "/".to_owned();
        proof {
            reveal_strlit("/");
            assert(("/")@ =~= seq!['/']);
        }
        assert(r@ =~= parent_spec(p@));
        r
    } else {
        let r = p.substring_char(0, e - 1).to_owned();
        assert(r@ =~= parent_spec(p@));
        r
    }
}

/// Computes the on-disk CSS path of each reference of `hrefs`, for a
/// document named by `html_input_file`: each is resolved against the
/// directory that holds the document.
pub fn css_paths(html_input_file: &str, hrefs: &Vec<String>) -> (r: Vec<String>)
    ensures
        r.deep_view() == Seq::new(
            hrefs@.len(),
            |i: int| resolve_spec(parent_spec(html_input_file@), hrefs@[i]@),
        ),
{
    let dir = parent_dir(html_input_file);
    let ghost target = Seq::new(
        hrefs@.len(),
        |i: int| resolve_spec(parent_spec(html_input_file@), hrefs@[i]@),
    );
    let mut r: Vec<String> = Vec::new();
    let mut i: usize = 0;
    while i < hrefs.len()
        invariant
            i <= hrefs@.len(),
            dir@ == parent_spec(html_input_file@),
            r.deep_view() =~= target.take(i as int),
            target == Seq::new(
                hrefs@.len(),
                |j: int| resolve_spec(parent_spec(html_input_file@), hrefs@[j]@),
            ),
        decreases hrefs@.len() - i,
    {
        let ghost before = r.deep_view();
        r.push(resolve(dir.as_str(), hrefs[i].as_str()));
        proof {
            assert(r.deep_view() =~= before.push(target[i as int]));
            assert(r.deep_view() =~= target.take(i + 1));
        }
        i += 1;
    }
    proof {
        assert(target.take(hrefs@.len() as int) =~= target);
    }
    r
}

} // verus!
