//! The static files of the web frontend, and how a request path finds one of them.
//!
//! A path is served as it is, with the content type that its extension suggests; failing
//! that, a directory path (empty or ending in `/`) is served its `index.html`, and any
//! other path `p` is served `p.html` or else `p/index.html`, as HTML.
use vstd::prelude::*;
use crate::text::{chars_of, extend_chars, string_of};

verus! {

/// The MIME type that `mime_guess` assigns to a path by its extension, with
/// `application/octet-stream` where it knows none.
pub uninterp spec fn guessed_mime(path: Seq<char>) -> Seq<char>;

/// `mime_guess::MimeGuess::from_path(path).first_or_octet_stream()`, written out.
/// Claimed: the result is a function of the path alone, named `guessed_mime`; what that
/// function is (a table of extensions in `mime_guess`) is not stated.
#[verifier::external_body]
fn guess_mime(path: &str) -> (res: String)
    ensures
        res@ == guessed_mime(path@),
{
    mime_guess::MimeGuess::from_path(path).first_or_octet_stream().to_string()
}

/// The content type of an HTML page.
pub open spec fn html_content_type() -> Seq<char> {
    seq![
        't', 'e', 'x', 't', '/', 'h', 't', 'm', 'l', ';', ' ', 'c', 'h', 'a', 'r', 's', 'e', 't',
        '=', 'u', 't', 'f', '-', '8',
    ]
}

/// `mime_guess::mime::TEXT_HTML_UTF_8`, written out.
/// Claimed: it reads `text/html; charset=utf-8`, the value that the `mime` crate defines
/// for this constant.
#[verifier::external_body]
fn html_mime() -> (res: String)
    ensures
        res@ == html_content_type(),
{
    mime_guess::mime::TEXT_HTML_UTF_8.to_string()
}

/// The frontend's files: a path and the file's content, for each.
pub struct StaticFiles {
    files: Vec<(String, Vec<u8>)>,
}

impl View for StaticFiles {
    type V = Seq<(Seq<char>, Seq<u8>)>;

    closed spec fn view(&self) -> Seq<(Seq<char>, Seq<u8>)> {
        self.files@.map_values(|f: (String, Vec<u8>)| (f.0@, f.1@))
    }
}

/// The content of the first file of `files` at `path`.
pub open spec fn spec_lookup(files: Seq<(Seq<char>, Seq<u8>)>, path: Seq<char>) -> Option<Seq<u8>>
    decreases files.len(),
{
    if files.len() == 0 {
        None
    } else if files[0].0 == path {
        Some(files[0].1)
    } else {
        spec_lookup(files.drop_first(), path)
    }
}

/// `index.html`
pub open spec fn index_html() -> Seq<char> {
    seq!['i', 'n', 'd', 'e', 'x', '.', 'h', 't', 'm', 'l']
}

/// `.html`
pub open spec fn dot_html() -> Seq<char> {
    seq!['.', 'h', 't', 'm', 'l']
}

/// A directory path: empty, or ending in `/`.
pub open spec fn is_directory(path: Seq<char>) -> bool {
    path.len() == 0 || path.last() == '/'
}

/// The content of the first of the HTML fallbacks of `path` that exists.
pub open spec fn spec_fallback(files: Seq<(Seq<char>, Seq<u8>)>, path: Seq<char>) -> Option<Seq<u8>> {
    if is_directory(path) {
        spec_lookup(files, path + index_html())
    } else {
        match spec_lookup(files, path + dot_html()) {
            Some(c) => Some(c),
            None => spec_lookup(files, path + seq!['/'] + index_html()),
        }
    }
}

/// What a request for `path` is answered: the file's content and its content type.
pub open spec fn spec_resolve(files: Seq<(Seq<char>, Seq<u8>)>, path: Seq<char>) -> Option<
    (Seq<u8>, Seq<char>),
> {
    match spec_lookup(files, path) {
        Some(c) => Some((c, guessed_mime(path))),
        None => match spec_fallback(files, path) {
            Some(c) => Some((c, html_content_type())),
            None => None,
        },
    }
}

impl StaticFiles {
    /// No files.
    pub fn new() -> (res: Self)
        ensures
            res@ == Seq::<(Seq<char>, Seq<u8>)>::empty(),
    {
        let res = StaticFiles { files: Vec::new() };
        assert(res@ =~= Seq::<(Seq<char>, Seq<u8>)>::empty());
        res
    }

    /// Adds a file after the others.
    pub fn add(&mut self, path: String, content: Vec<u8>)
        ensures
            final(self)@ == old(self)@.push((path@, content@)),
    {
        self.files.push((path, content));
        assert(final(self)@ =~= old(self)@.push((path@, content@)));
    }
}

/// Retrieves the content of the file at `path`.
pub fn get<'a>(files: &'a StaticFiles, path: &str) -> (res: Option<&'a [u8]>)
    ensures
        match res {
            Some(c) => spec_lookup(files@, path@) == Some(c@),
            None => spec_lookup(files@, path@) is None,
        },
{
    let wanted = String::from_str(path);
    let mut i: usize = 0;
    assert(files@.skip(0) =~= files@);
    while i < files.files.len()
        invariant
            i <= files.files@.len(),
            wanted@ == path@,
            spec_lookup(files@, path@) == spec_lookup(files@.skip(i as int), path@),
        decreases files.files@.len() - i,
    {
        let ghost rest = files@.skip(i as int);
        assert(rest.drop_first() =~= files@.skip(i + 1));
        assert(rest[0] == (files.files@[i as int].0@, files.files@[i as int].1@));
        if files.files[i].0 == wanted {
            return Some(files.files[i].1.as_slice());
        }
        i = i + 1;
    }
    None
}

fn with_suffix(path: &Vec<char>, suffix: Vec<char>) -> (res: String)
    ensures
        res@ == path@ + suffix@,
{
    let mut all: Vec<char> = Vec::new();
    extend_chars(&mut all, path);
    extend_chars(&mut all, &suffix);
    string_of(&all, 0, all.len())
}

/// The content of the first of the HTML fallbacks of `path` that exists.
pub fn fallback<'a>(files: &'a StaticFiles, path: &str) -> (res: Option<&'a [u8]>)
    ensures
        match res {
            Some(c) => spec_fallback(files@, path@) == Some(c@),
            None => spec_fallback(files@, path@) is None,
        },
{
    let chars = chars_of(path);
    let n = chars.len();
    if n == 0 || chars[n - 1] == '/' {
        let index = with_suffix(&chars, vec!['i', 'n', 'd', 'e', 'x', '.', 'h', 't', 'm', 'l']);
        get(files, index.as_str())
    } else {
        let html = with_suffix(&chars, vec!['.', 'h', 't', 'm', 'l']);
        match get(files, html.as_str()) {
            Some(c) => Some(c),
            None => {
                let index = with_suffix(
                    &chars,
                    vec!['/', 'i', 'n', 'd', 'e', 'x', '.', 'h', 't', 'm', 'l'],
                );
                assert(path@ + seq!['/'] + index_html() =~= path@ + seq![
                    '/',
                    'i',
                    'n',
                    'd',
                    'e',
                    'x',
                    '.',
                    'h',
                    't',
                    'm',
                    'l',
                ]);
                get(files, index.as_str())
            },
        }
    }
}

/// Answers a request for `path`: the file's content and its content type, or `None`
/// where neither the path nor its HTML fallbacks exist.
pub fn resolve<'a>(files: &'a StaticFiles, path: &str) -> (res: Option<(&'a [u8], String)>)
    ensures
        match res {
            Some(r) => spec_resolve(files@, path@) == Some((r.0@, r.1@)),
            None => spec_resolve(files@, path@) is None,
        },
{
    match get(files, path) {
        Some(c) => Some((c, guess_mime(path))),
        None => match fallback(files, path) {
            Some(c) => Some((c, html_mime())),
            None => None,
        },
    }
}

} // verus!
