//! The site's page resources: compiled style sheets and scripts kept by page
//! name, and the pages built from them.
use vstd::prelude::*;

use crate::strmap::StrMap;
use crate::text::{push_char, replace_all, replace_str, trim_leading_slashes, trim_start};

verus! {

/// How a page answers a request.
#[derive(Debug)]
pub enum PageType {
    /// Render the page's template.
    Real,
    /// Answer "not found".
    Empty,
    /// Send this HTML body as it is.
    Plain(String),
}

/// A page to send: the template name, its style sheet and script, whether it
/// needs a signed-in user, and how it answers.
#[derive(Debug)]
pub struct Page {
    pub name: String,
    pub styles: String,
    pub scripts: String,
    pub secure: bool,
    pub response: PageType,
}

/// What answering a request with a page comes to.
#[derive(Debug)]
pub enum PageReply {
    /// Answer "not found".
    NotFound,
    /// Render the template file `template`.
    Render { template: String },
    /// Send this HTML body.
    Body(String),
}

/// The compiled resources under a root directory: whether the HTML templates
/// were loaded, and the style sheets and scripts by page name.
#[derive(Debug)]
pub struct Resources {
    root: String,
    html: bool,
    css: StrMap,
    js: StrMap,
}

/// The page name that a route path stands for: the path without its leading
/// slashes.
pub open spec fn page_name(path: Seq<char>) -> Seq<char> {
    trim_start(path, '/')
}

/// The index just after the last `c` in `s`, or 0 if there is none.
pub open spec fn after_last(s: Seq<char>, c: char) -> int
    decreases s.len(),
{
    if s.len() == 0 {
        0
    } else if s.last() == c {
        s.len() as int
    } else {
        after_last(s.drop_last(), c)
    }
}

/// The index of the last `c` in `s` at or after `from`, if any.
pub open spec fn last_index_from(s: Seq<char>, c: char, from: int) -> Option<int>
    decreases s.len() - from,
{
    if from >= s.len() || from < 0 {
        None
    } else {
        match last_index_from(s, c, from + 1) {
            Some(i) => Some(i),
            None => if s[from] == c {
                Some(from)
            } else {
                None
            },
        }
    }
}

/// A relative file path without the extension of its last component, as
/// `Path::with_extension("")` gives it: the extension is what follows the
/// last `.` of the file name, unless that `.` starts the name or the name is
/// `..`.
pub open spec fn without_extension(path: Seq<char>) -> Seq<char> {
    let start = after_last(path, '/');
    let name = path.skip(start);
    match last_index_from(path, '.', start) {
        Some(dot) => if dot == start || name == ".."@ {
            path
        } else {
            path.take(dot)
        },
        None => path,
    }
}

/// The key under which a compiled resource file is kept, for a file whose
/// path relative to its directory is `path`: the path without its extension,
/// with `\` turned into `/`.
pub open spec fn asset_key(path: Seq<char>) -> Seq<char> {
    replace_all(without_extension(path), seq!['\\'], seq!['/'])
}

proof fn lemma_after_last_bounds(s: Seq<char>, c: char)
    ensures
        0 <= after_last(s, c) <= s.len(),
        after_last(s, c) > 0 ==> s[after_last(s, c) - 1] == c,
        forall|i: int| after_last(s, c) <= i < s.len() ==> s[i] != c,
    decreases s.len(),
{
    if s.len() > 0 {
        lemma_after_last_bounds(s.drop_last(), c);
        let a = after_last(s.drop_last(), c);
        if s.last() != c {
            assert forall|i: int| after_last(s, c) <= i < s.len() implies s[i] != c by {
                if i < s.len() - 1 {
                    assert(s[i] == s.drop_last()[i]);
                }
            }
            if a > 0 {
                assert(s[a - 1] == s.drop_last()[a - 1]);
            }
        }
    }
}

proof fn lemma_last_index_from(s: Seq<char>, c: char, from: int)
    requires
        0 <= from <= s.len(),
    ensures
        match last_index_from(s, c, from) {
            Some(i) => from <= i < s.len() && s[i] == c && forall|j: int| i < j < s.len() ==> s[j]
                != c,
            None => forall|j: int| from <= j < s.len() ==> s[j] != c,
        },
    decreases s.len() - from,
{
    if from < s.len() {
        lemma_last_index_from(s, c, from + 1);
    }
}

/// Takes the extension off the last component of a relative file path.
fn strip_extension(path: &str) -> (r: String)
    ensures
        r@ == without_extension(path@),
{
    let len = path.unicode_len();
    let mut start: usize = len;
    while start > 0 && path.get_char(start - 1) != '/'
        invariant
            start <= len,
            len == path@.len(),
            forall|i: int| start <= i < len ==> path@[i] != '/',
        decreases start,
    {
        start = start - 1;
    }
    proof {
        lemma_after_last_bounds(path@, '/');
        // `start` is just after the last '/', or 0 when there is none.
        if start > 0 {
            assert(path@[start - 1] == '/');
        }
        assert(after_last(path@, '/') == start) by {
            let a = after_last(path@, '/');
            if a > start {
                assert(path@[a - 1] == '/');
            }
            if a < start {
                assert(path@[start - 1] == '/');
            }
        }
    }
    let mut i: usize = len;
    while i > start && path.get_char(i - 1) != '.'
        invariant
            start <= i <= len,
            len == path@.len(),
            forall|j: int| i <= j < len ==> path@[j] != '.',
        decreases i,
    {
        i = i - 1;
    }
    let found = i > start;
    let dot: usize = if found { i - 1 } else { len };
    proof {
        lemma_last_index_from(path@, '.', start as int);
        let li = last_index_from(path@, '.', start as int);
        if found {
            assert(path@[dot as int] == '.');
            match li {
                Some(k) => {
                    assert(k == dot);
                },
                None => {
                    assert(false);
                },
            }
        } else {
            match li {
                Some(k) => {
                    assert(path@[k] == '.');
                    assert(false);
                },
                None => {},
            }
        }
    }
    let name = path.substring_char(start, len);
    assert(name@ =~= path@.skip(start as int));
    let is_parent = crate::text::str_eq(name, "..");
    if found && dot != start && !is_parent {
        let r = path.substring_char(0, dot).to_owned();
        assert(r@ =~= path@.take(dot as int));
        r
    } else {
        path.to_owned()
    }
}

impl Resources {
    /// Resources under `root` with nothing compiled yet.
    pub fn new(root: &str) -> (r: Resources)
        ensures
            r.spec_root() == root@,
            !r.spec_html(),
            r.spec_css() == Map::<Seq<char>, Seq<char>>::empty(),
            r.spec_js() == Map::<Seq<char>, Seq<char>>::empty(),
    {
        Resources { root: root.to_owned(), html: false, css: StrMap::new(), js: StrMap::new() }
    }

    /// The resources root directory.
    pub closed spec fn spec_root(&self) -> Seq<char> {
        self.root@
    }

    /// Whether the HTML templates are loaded.
    pub closed spec fn spec_html(&self) -> bool {
        self.html
    }

    /// The compiled style sheets, by page name.
    pub closed spec fn spec_css(&self) -> Map<Seq<char>, Seq<char>> {
        self.css@
    }

    /// The scripts, by page name.
    pub closed spec fn spec_js(&self) -> Map<Seq<char>, Seq<char>> {
        self.js@
    }

    /// The key under which a resource file is kept, for a file whose path
    /// relative to its directory is `path`.
    pub fn key_for(path: &str) -> (r: String)
        ensures
            r@ == asset_key(path@),
    {
        let stem = strip_extension(path);
        proof {
            reveal_strlit("\\");
            reveal_strlit("/");
        }
        assert("\\"@ =~= seq!['\\']);
        assert("/"@ =~= seq!['/']);
        replace_str(stem.as_str(), "\\", "/")
    }

    /// Records that the HTML templates have been loaded.
    pub fn set_html_loaded(&mut self)
        ensures
            final(self).spec_html(),
            final(self).spec_root() == old(self).spec_root(),
            final(self).spec_css() == old(self).spec_css(),
            final(self).spec_js() == old(self).spec_js(),
    {
        self.html = true;
    }

    /// Keeps the compiled style sheet `css` for the page `name`.
    pub fn add_css(&mut self, name: String, css: String)
        ensures
            final(self).spec_css() == old(self).spec_css().insert(name@, css@),
            final(self).spec_html() == old(self).spec_html(),
            final(self).spec_root() == old(self).spec_root(),
            final(self).spec_js() == old(self).spec_js(),
    {
        self.css.insert(name, css);
    }

    /// Keeps the script `js` for the page `name`.
    pub fn add_js(&mut self, name: String, js: String)
        ensures
            final(self).spec_js() == old(self).spec_js().insert(name@, js@),
            final(self).spec_html() == old(self).spec_html(),
            final(self).spec_root() == old(self).spec_root(),
            final(self).spec_css() == old(self).spec_css(),
    {
        self.js.insert(name, js);
    }

    /// The page for the route `path`: with the templates loaded, a page named
    /// by the path without its leading slashes, with that name's style sheet
    /// and script; without them, the page that answers "not found".
    pub fn page(&self, path: &str, secure: bool) -> (r: Page)
        ensures
            self.spec_html() ==> {
                let name = page_name(path@);
                &&& r.name@ == name
                &&& r.styles@ == (if self.spec_css().contains_key(name) {
                    self.spec_css()[name]
                } else {
                    Seq::<char>::empty()
                })
                &&& r.scripts@ == (if self.spec_js().contains_key(name) {
                    self.spec_js()[name]
                } else {
                    Seq::<char>::empty()
                })
                &&& r.secure == secure
                &&& r.response is Real
            },
            !self.spec_html() ==> {
                &&& r.response is Empty
                &&& r.secure
                &&& r.name@.len() == 0
                &&& r.styles@.len() == 0
                &&& r.scripts@.len() == 0
            },
    {
        if self.html {
            let name = trim_leading_slashes(path);
            let style = self.css.get(name.as_str());
            let script = self.js.get(name.as_str());
            Page::templated(name, style, script, secure)
        } else {
            Page::none()
        }
    }
}

impl Page {
    /// A page that renders its template `name`, with the given style sheet
    /// and script (empty when absent).
    pub fn templated(name: String, style: Option<String>, script: Option<String>, secure: bool) -> (r:
        Page)
        ensures
            r.name == name,
            r.styles@ == match style {
                Some(s) => s@,
                None => Seq::<char>::empty(),
            },
            r.scripts@ == match script {
                Some(s) => s@,
                None => Seq::<char>::empty(),
            },
            r.secure == secure,
            r.response is Real,
    {
        Page {
            name,
            styles: match style {
                Some(s) => s,
                None => String::new(),
            },
            scripts: match script {
                Some(s) => s,
                None => String::new(),
            },
            secure,
            response: PageType::Real,
        }
    }

    /// The page that answers "not found".
    pub fn none() -> (r: Page)
        ensures
            r.name@.len() == 0,
            r.styles@.len() == 0,
            r.scripts@.len() == 0,
            r.secure,
            r.response is Empty,
    {
        Page {
            name: String::new(),
            styles: String::new(),
            scripts: String::new(),
            secure: true,
            response: PageType::Empty,
        }
    }

    /// A page that sends `body` as it is.
    pub fn plain(body: &str) -> (r: Page)
        ensures
            r.name@.len() == 0,
            r.styles@.len() == 0,
            r.scripts@.len() == 0,
            r.secure,
            r.response matches PageType::Plain(b) && b@ == body@,
    {
        Page {
            name: String::new(),
            styles: String::new(),
            scripts: String::new(),
            secure: true,
            response: PageType::Plain(body.to_owned()),
        }
    }

    /// How the page answers a request: a page that renders its template
    /// answers "not found" when it needs a signed-in user and there is none,
    /// and otherwise renders `<name>.html`; a plain page sends its body; the
    /// empty page answers "not found".
    pub fn reply(&self, signed_in: bool) -> (r: PageReply)
        ensures
            match self.response {
                PageType::Real => if self.secure && !signed_in {
                    r is NotFound
                } else {
                    r matches PageReply::Render { template } && template@ == self.name@
                        + ".html"@
                },
                PageType::Plain(b) => r matches PageReply::Body(s) && s@ == b@,
                PageType::Empty => r is NotFound,
            },
    {
        match &self.response {
            PageType::Real => {
                if self.secure && !signed_in {
                    PageReply::NotFound
                } else {
                    let mut template = self.name.clone();
                    template.append(".html");
                    PageReply::Render { template }
                }
            },
            PageType::Plain(b) => PageReply::Body(b.clone()),
            PageType::Empty => PageReply::NotFound,
        }
    }

    /// The route a request was for: its path, and `?` and its query when it
    /// has one.
    pub fn route(path: &str, query: Option<&str>) -> (r: String)
        ensures
            r@ == match query {
                Some(q) => path@ + seq!['?'] + q@,
                None => path@,
            },
    {
        let mut out = path.to_owned();
        match query {
            Some(q) => {
                push_char(&mut out, '?');
                out.append(q);
                assert(out@ =~= path@ + seq!['?'] + q@);
            },
            None => {},
        }
        out
    }
}

/// A page name never starts with a slash.
pub proof fn law_page_name_has_no_leading_slash(path: Seq<char>)
    ensures
        page_name(path).len() == 0 || page_name(path)[0] != '/',
    decreases path.len(),
{
    if path.len() > 0 && path[0] == '/' {
        law_page_name_has_no_leading_slash(path.drop_first());
    }
}

} // verus!
