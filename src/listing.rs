//! The directory renderer: an HTML index of a directory's entries.
use vstd::prelude::*;
use crate::bytes::{append, append_text, text};
use crate::request::Method;
use crate::resolve::{fs_path, path_of, views, SLASH};
use crate::response::{ok_answer, Response, Status};
use vstd::slice::slice_subrange;

verus! {

/// The path of the entry `name` of the directory `dir`.
pub open spec fn entry_path(dir: Seq<Seq<u8>>, name: Seq<u8>) -> Seq<u8> {
    fs_path(dir) + seq![SLASH] + name
}

/// One list item: a link to the entry, whose target is its path without the
/// root's `.` and whose text is its path without the root's `./`.
pub open spec fn list_item(dir: Seq<Seq<u8>>, name: Seq<u8>) -> Seq<u8> {
    text("<li><a href=\"") + entry_path(dir, name).skip(1) + text("\">") + entry_path(
        dir,
        name,
    ).skip(2) + text("</a></li>")
}

/// The list items of the entries `names`, in the order given.
pub open spec fn list_items(dir: Seq<Seq<u8>>, names: Seq<Seq<u8>>) -> Seq<u8>
    decreases names.len(),
{
    if names.len() == 0 {
        Seq::empty()
    } else {
        list_items(dir, names.drop_last()) + list_item(dir, names.last())
    }
}

/// The HTML index page of the directory `dir` holding `names`.
pub open spec fn listing_page(dir: Seq<Seq<u8>>, names: Seq<Seq<u8>>) -> Seq<u8> {
    text("<html><head><title>") + fs_path(dir) + text("</title></head><body>Index for ")
        + fs_path(dir) + text("<ul>") + list_items(dir, names) + text("</ul></body></html>")
}

/// Renders the index page of the directory `dir` with the entries `names`.
pub fn render_listing(dir: &Vec<Vec<u8>>, names: &Vec<Vec<u8>>) -> (r: Vec<u8>)
    ensures
        r@ == listing_page(views(dir@), views(names@)),
{
    let path = path_of(dir);
    let mut items: Vec<u8> = Vec::new();
    let mut i: usize = 0;
    assert(views(names@).take(0) =~= Seq::<Seq<u8>>::empty());
    while i < names.len()
        invariant
            i <= names@.len(),
            path@ == fs_path(views(dir@)),
            items@ == list_items(views(dir@), views(names@).take(i as int)),
        decreases names@.len() - i,
    {
        let mut entry: Vec<u8> = Vec::new();
        append(&mut entry, path.as_slice());
        entry.push(SLASH);
        append(&mut entry, names[i].as_slice());
        assert(entry@ =~= entry_path(views(dir@), names@[i as int]@));
        append_text(&mut items, "<li><a href=\"");
        append(&mut items, slice_subrange(entry.as_slice(), 1, entry.len()));
        append_text(&mut items, "\">");
        append(&mut items, slice_subrange(entry.as_slice(), 2, entry.len()));
        append_text(&mut items, "</a></li>");
        assert(entry@.subrange(1, entry@.len() as int) =~= entry@.skip(1));
        assert(entry@.subrange(2, entry@.len() as int) =~= entry@.skip(2));
        assert(views(names@).take(i + 1).drop_last() =~= views(names@).take(i as int));
        assert(items@ =~= list_items(views(dir@), views(names@).take(i + 1)));
        i = i + 1;
    }
    assert(views(names@).take(i as int) =~= views(names@));
    let mut page: Vec<u8> = Vec::new();
    append_text(&mut page, "<html><head><title>");
    append(&mut page, path.as_slice());
    append_text(&mut page, "</title></head><body>Index for ");
    append(&mut page, path.as_slice());
    append_text(&mut page, "<ul>");
    append(&mut page, items.as_slice());
    append_text(&mut page, "</ul></body></html>");
    assert(page@ =~= listing_page(views(dir@), views(names@)));
    page
}

/// The answer with the index page of `dir`: HTML, its length, and the page for
/// a GET.
pub fn respond_listing(method: Method, dir: &Vec<Vec<u8>>, names: &Vec<Vec<u8>>, date: Vec<u8>) -> (r:
    Response)
    ensures
        r@ == ok_answer(
            method,
            "text/html"@,
            listing_page(views(dir@), views(names@)).len(),
            listing_page(views(dir@), views(names@)),
            date@,
        ),
{
    let page = render_listing(dir, names);
    let length = page.len();
    let body = if method == Method::Get {
        page
    } else {
        Vec::new()
    };
    Response { status: Status::Success, date, content_type: "text/html", content_length: length, body }
}

} // verus!
