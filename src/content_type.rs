//! The content-type classifier: a fixed table from a path's extension to a
//! MIME type. Extensions are matched case-sensitively (`.HTML` is plain text).
use vstd::prelude::*;
use crate::bytes::{is_text, text};
use crate::resolve::{pieces, split_pieces, views, DOT};
use vstd::slice::slice_subrange;

verus! {

/// The file name of a path given by its pieces: the last piece that is neither
/// empty nor `.`, unless that one is `..`.
pub open spec fn name_of(ps: Seq<Seq<u8>>) -> Option<Seq<u8>>
    decreases ps.len(),
{
    if ps.len() == 0 {
        None
    } else if ps.last().len() == 0 || ps.last() == text(".") {
        name_of(ps.drop_last())
    } else if ps.last() == text("..") {
        None
    } else {
        Some(ps.last())
    }
}

/// The index of the last `.` in `name`, or -1 when it has none.
pub open spec fn last_dot(name: Seq<u8>) -> int
    decreases name.len(),
{
    if name.len() == 0 {
        -1
    } else if name.last() == DOT {
        name.len() - 1
    } else {
        last_dot(name.drop_last())
    }
}

/// The extension of the path `s`: what follows the last `.` of its file
/// name, where that dot is not the name's first byte.
pub open spec fn extension(s: Seq<u8>) -> Option<Seq<u8>> {
    match name_of(pieces(s)) {
        Some(name) => if last_dot(name) > 0 {
            Some(name.skip(last_dot(name) + 1))
        } else {
            None
        },
        None => None,
    }
}

/// The MIME type for an extension.
pub open spec fn mime_for(ext: Option<Seq<u8>>) -> Seq<char> {
    match ext {
        Some(e) => if e == text("html") || e == text("htm") {
            "text/html"@
        } else if e == text("json") {
            "application/json"@
        } else if e == text("css") {
            "text/css"@
        } else if e == text("js") {
            "text/javascript"@
        } else {
            "text/plain"@
        },
        None => "text/plain"@,
    }
}

fn last_dot_of(name: &[u8]) -> (r: Option<usize>)
    ensures
        match r {
            Some(i) => i == last_dot(name@) && i < name@.len(),
            None => last_dot(name@) == -1,
        },
{
    let mut k: usize = name.len();
    assert(name@.subrange(0, k as int) =~= name@);
    while k > 0
        invariant
            k <= name@.len(),
            last_dot(name@) == last_dot(name@.subrange(0, k as int)),
        decreases k,
    {
        let ghost pre = name@.subrange(0, k as int);
        assert(pre.drop_last() =~= name@.subrange(0, k - 1));
        if name[k - 1] == DOT {
            return Some(k - 1);
        }
        k = k - 1;
    }
    None
}

/// The file name of the path whose pieces are `ps`.
fn file_name(ps: &Vec<Vec<u8>>) -> (r: Option<&Vec<u8>>)
    ensures
        match r {
            Some(v) => name_of(views(ps@)) == Some(v@),
            None => name_of(views(ps@)) is None,
        },
{
    let mut k: usize = ps.len();
    assert(views(ps@).subrange(0, k as int) =~= views(ps@));
    while k > 0
        invariant
            k <= ps@.len(),
            name_of(views(ps@)) == name_of(views(ps@).subrange(0, k as int)),
        decreases k,
    {
        let ghost pre = views(ps@).subrange(0, k as int);
        assert(pre.drop_last() =~= views(ps@).subrange(0, k - 1));
        assert(pre.last() == ps@[k - 1]@);
        let p = &ps[k - 1];
        if p.len() == 0 || is_text(p.as_slice(), ".") {
            k = k - 1;
        } else if is_text(p.as_slice(), "..") {
            return None;
        } else {
            return Some(p);
        }
    }
    assert(views(ps@).subrange(0, 0) =~= Seq::<Seq<u8>>::empty());
    None
}

/// The MIME type that the extension of the path `uri` calls for.
pub fn content_type_for(uri: &[u8]) -> (r: &'static str)
    ensures
        r@ == mime_for(extension(uri@)),
{
    let ps = split_pieces(uri);
    let name = match file_name(&ps) {
        Some(name) => name,
        None => return "text/plain",
    };
    let dot = match last_dot_of(name.as_slice()) {
        Some(i) => i,
        None => return "text/plain",
    };
    assert(dot < name.len());
    if dot == 0 {
        return "text/plain";
    }
    let ext = slice_subrange(name.as_slice(), dot + 1, name.len());
    assert(ext@ =~= name@.skip(dot + 1));
    if is_text(ext, "html") || is_text(ext, "htm") {
        "text/html"
    } else if is_text(ext, "json") {
        "application/json"
    } else if is_text(ext, "css") {
        "text/css"
    } else if is_text(ext, "js") {
        "text/javascript"
    } else {
        "text/plain"
    }
}

/// An extension in the table.
pub open spec fn is_known(e: Seq<u8>) -> bool {
    e == text("html") || e == text("htm") || e == text("json") || e == text("css") || e == text(
        "js",
    )
}

/// A path whose extension is `json` is `application/json`; one with no
/// extension, or one outside the table, is `text/plain`.
pub proof fn lemma_json_and_unknown_types(uri: Seq<u8>)
    ensures
        extension(uri) == Some(text("json")) ==> mime_for(extension(uri)) == "application/json"@,
        extension(uri) is None ==> mime_for(extension(uri)) == "text/plain"@,
        (extension(uri) matches Some(e) && !is_known(e)) ==> mime_for(extension(uri))
            == "text/plain"@,
{
    reveal_strlit("json");
    reveal_strlit("html");
    reveal_strlit("htm");
    vstd::string::is_ascii_spec_bytes("json");
    vstd::string::is_ascii_spec_bytes("html");
    vstd::string::is_ascii_spec_bytes("htm");
    assert(text("json").len() == 4);
    assert(text("htm").len() == 3);
    assert(text("json")[0] != text("html")[0]);
}

} // verus!
