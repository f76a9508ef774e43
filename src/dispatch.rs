//! The request dispatcher, as steps: each takes what the transport has
//! found out and says what to do next, up to one response per connection.
use vstd::prelude::*;
use crate::bytes::append;
use crate::content_type::{extension, mime_for};
use crate::listing::{listing_page, respond_listing};
use crate::request::{parse, parse_request_line, Method, RequestError};
use crate::resolve::{
    fs_path, is_entry_name, is_name, joined, path_of, resolve, resolve_target, views, SLASH,
};
use crate::response::{
    bare_answer, body_contents, body_length, not_allowed, not_found, not_found_answer,
    not_permitted, ok_answer, respond_file, FileBody, Response, ResponseView, Status,
};

verus! {

/// Relies on time::now and time::strftime: the local time at the call, in the
/// form `Mon, 19 Oct 2026 10:42:00 `, followed by `UTC` where the local offset
/// is zero and by nothing otherwise.
#[verifier::external_body]
fn current_time_string() -> (r: Vec<u8>) {
    time::strftime("%a, %d %b %Y %H:%M:%S %Z", &time::now()).unwrap_or_default().into_bytes()
}

/// What the server was started with.
#[derive(Debug)]
pub struct Config {
    /// The file served in place of a directory's listing; empty for none.
    pub index: Vec<u8>,
    /// Whether directories without an index are listed.
    pub list_dir: bool,
}

/// What stands at a path.
#[derive(Debug)]
pub enum Found {
    Directory,
    /// A file that could be opened: its bytes for a GET, its length for a HEAD.
    File(FileBody),
    /// Nothing that could be opened.
    Missing,
}

/// A usable index setting: empty (no index), or one entry's name.
pub open spec fn valid_index(index: Seq<u8>) -> bool {
    index.len() == 0 || is_name(index)
}

impl Config {
    /// The index setting names at most one entry of a directory, so that an
    /// index path never leaves the directory.
    pub open spec fn wf(&self) -> bool {
        valid_index(self.index@)
    }

    /// Whether the index setting is usable.
    pub fn is_valid(&self) -> (r: bool)
        ensures
            r == self.wf(),
    {
        self.index.len() == 0 || is_entry_name(self.index.as_slice())
    }
}

/// What is reported, besides the response, of a connection that went wrong.
#[derive(Debug, Clone, Copy, PartialEq, Eq, Structural)]
pub enum Report {
    /// The method was neither `GET` nor `HEAD`.
    MethodNotAllowed,
    /// A directory had no index and listings are off.
    ListingDisabled,
}

/// What the transport is to do next.
#[derive(Debug)]
pub enum Next {
    /// Write nothing and close the connection: the request line was refused.
    Abort(RequestError),
    /// Write the response's bytes and close the connection.
    Reply(Response, Option<Report>),
    /// Find out what stands at `path`, then call `on_target`.
    LookUp { method: Method, target: Vec<u8>, segs: Vec<Vec<u8>>, path: Vec<u8> },
    /// Try to open the index file at `path`, then call `on_index`.
    OpenIndex { method: Method, dir: Vec<Vec<u8>>, path: Vec<u8> },
    /// Read the names of the entries of the directory at `path`, then call `on_listing`.
    ListDirectory { method: Method, dir: Vec<Vec<u8>>, path: Vec<u8> },
}

/// `n` is a reply that is `answer` up to its date, with the report `report`.
pub open spec fn is_reply(
    n: Next,
    answer: spec_fn(Seq<u8>) -> ResponseView,
    report: Option<Report>,
) -> bool {
    match n {
        Next::Reply(resp, rep) => resp@ == answer(resp@.date) && rep == report,
        _ => false,
    }
}

/// The path of the index file `index` in the directory `dir`.
pub open spec fn index_path(dir: Seq<Seq<u8>>, index: Seq<u8>) -> Seq<u8> {
    fs_path(dir) + seq![SLASH] + index
}

/// What follows where a directory has no index to serve: a 404 if listings are
/// off, else its listing.
pub open spec fn without_index(n: Next, method: Method, dir: Seq<Seq<u8>>, list_dir: bool) -> bool {
    if !list_dir {
        is_reply(
            n,
            |d: Seq<u8>| not_found_answer(method, fs_path(dir), d),
            Some(Report::ListingDisabled),
        )
    } else {
        match n {
            Next::ListDirectory { method: m, dir: ds, path } => m == method && views(ds@) == dir
                && path@ == fs_path(dir),
            _ => false,
        }
    }
}

/// What follows where the target is a directory: its index if one is
/// configured, else what `without_index` says.
pub open spec fn into_directory(n: Next, method: Method, dir: Seq<Seq<u8>>, config: Config) -> bool {
    if config.index@.len() > 0 {
        match n {
            Next::OpenIndex { method: m, dir: ds, path } => m == method && views(ds@) == dir
                && path@ == index_path(dir, config.index@),
            _ => false,
        }
    } else {
        without_index(n, method, dir, config.list_dir)
    }
}

/// Takes the request line: refuses it, answers it at once (405, 403), or asks
/// for the target's path to be looked up.
pub fn begin(line: &[u8]) -> (r: Next)
    ensures
        match parse(line@) {
            Err(RequestError::MethodNotAllowed) => is_reply(
                r,
                |d: Seq<u8>| bare_answer(Status::MethodNotAllowed, d),
                Some(Report::MethodNotAllowed),
            ),
            Err(e) => r matches Next::Abort(e2) && e2 == e,
            Ok((method, target)) => match resolve(target) {
                None => is_reply(
                    r,
                    |d: Seq<u8>| bare_answer(Status::NotPermitted, d),
                    None,
                ),
                Some(segs) => match r {
                    Next::LookUp { method: m, target: t, segs: s, path } => m == method && t@
                        == target && views(s@) == segs && path@ == fs_path(segs),
                    _ => false,
                },
            },
        },
{
    let req = match parse_request_line(line) {
        Ok(req) => req,
        Err(RequestError::MethodNotAllowed) => {
            let date = current_time_string();
            return Next::Reply(not_allowed(date), Some(Report::MethodNotAllowed));
        },
        Err(e) => return Next::Abort(e),
    };
    match resolve_target(req.target.as_slice()) {
        Ok(segs) => {
            let path = path_of(&segs);
            Next::LookUp { method: req.method, target: req.target, segs, path }
        },
        Err(_) => {
            let date = current_time_string();
            Next::Reply(not_permitted(date), None)
        },
    }
}

/// Takes what stands at the target's path: answers for a file or for nothing
/// there, and for a directory goes on to its index or its listing.
pub fn on_target(method: Method, target: &[u8], segs: Vec<Vec<u8>>, found: Found, config: &Config) -> (r: Next)
    requires
        config.wf(),
        method == Method::Get ==> !(found matches Found::File(FileBody::Size(_))),
    ensures
        match found {
            Found::Missing => is_reply(r, |d: Seq<u8>| not_found_answer(method, target@, d), None),
            Found::File(fb) => is_reply(
                r,
                |d: Seq<u8>|
                    ok_answer(
                        method,
                        mime_for(extension(target@)),
                        body_length(fb),
                        body_contents(fb),
                        d,
                    ),
                None,
            ),
            Found::Directory => into_directory(r, method, views(segs@), *config),
        },
{
    match found {
        Found::Missing => {
            let date = current_time_string();
            Next::Reply(not_found(method, target, date), None)
        },
        Found::File(fb) => {
            let date = current_time_string();
            Next::Reply(respond_file(method, target, fb, date), None)
        },
        Found::Directory => enter_directory(method, segs, config),
    }
}

fn enter_directory(method: Method, dir: Vec<Vec<u8>>, config: &Config) -> (r: Next)
    ensures
        into_directory(r, method, views(dir@), *config),
{
    if config.index.len() > 0 {
        let mut path = path_of(&dir);
        path.push(SLASH);
        append(&mut path, config.index.as_slice());
        assert(path@ =~= index_path(views(dir@), config.index@));
        Next::OpenIndex { method, dir, path }
    } else {
        no_index(method, dir, config.list_dir)
    }
}

fn no_index(method: Method, dir: Vec<Vec<u8>>, list_dir: bool) -> (r: Next)
    ensures
        without_index(r, method, views(dir@), list_dir),
{
    let path = path_of(&dir);
    if !list_dir {
        let date = current_time_string();
        Next::Reply(not_found(method, path.as_slice(), date), Some(Report::ListingDisabled))
    } else {
        Next::ListDirectory { method, dir, path }
    }
}

/// Takes the index file of the directory `dir`, if it could be opened: it is
/// served as a file; without it, what `without_index` says follows.
pub fn on_index(method: Method, dir: Vec<Vec<u8>>, found: Option<FileBody>, config: &Config) -> (r: Next)
    requires
        config.wf(),
        method == Method::Get ==> !(found matches Some(FileBody::Size(_))),
    ensures
        match found {
            Some(fb) => is_reply(
                r,
                |d: Seq<u8>|
                    ok_answer(
                        method,
                        mime_for(extension(index_path(views(dir@), config.index@))),
                        body_length(fb),
                        body_contents(fb),
                        d,
                    ),
                None,
            ),
            None => without_index(r, method, views(dir@), config.list_dir),
        },
{
    match found {
        Some(fb) => {
            let mut path = path_of(&dir);
            path.push(SLASH);
            append(&mut path, config.index.as_slice());
        assert(path@ =~= index_path(views(dir@), config.index@));
            let date = current_time_string();
            Next::Reply(respond_file(method, path.as_slice(), fb, date), None)
        },
        None => no_index(method, dir, config.list_dir),
    }
}

/// Takes the names of the entries of the directory `dir` and answers with its
/// listing.
pub fn on_listing(method: Method, dir: &Vec<Vec<u8>>, names: &Vec<Vec<u8>>) -> (r: Response)
    ensures
        r@ == ok_answer(
            method,
            "text/html"@,
            listing_page(views(dir@), views(names@)).len(),
            listing_page(views(dir@), views(names@)),
            r@.date,
        ),
{
    let date = current_time_string();
    respond_listing(method, dir, names, date)
}

/// The index file of a directory is the entry of that directory named by the
/// index setting: its path is that of the directory's segments with the index
/// name added, each one an entry's name, so it stays below the serving root.
pub proof fn lemma_index_stays_below_root(dir: Seq<Seq<u8>>, index: Seq<u8>)
    requires
        valid_index(index),
        index.len() > 0,
        forall|i: int| 0 <= i < dir.len() ==> is_name(#[trigger] dir[i]),
    ensures
        index_path(dir, index) == fs_path(dir.push(index)),
        forall|i: int| 0 <= i < dir.push(index).len() ==> is_name(#[trigger] dir.push(index)[i]),
{
    assert(dir.push(index).drop_last() =~= dir);
    assert(joined(dir.push(index)) == joined(dir) + seq![SLASH] + index);
    assert(index_path(dir, index) =~= fs_path(dir.push(index)));
    assert forall|i: int| 0 <= i < dir.push(index).len() implies is_name(#[trigger] dir.push(index)[i]) by {
        if i < dir.len() {
            assert(dir.push(index)[i] == dir[i]);
        }
    }
}

} // verus!
