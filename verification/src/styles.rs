//! Compiled style sheets: layouts and themes, found by the name of their
//! source file, and the `<style>` element that combines one of each.
use vstd::prelude::*;

use crate::strmap::StrMap;
use crate::text::{is_ws, occurs_at, ends_with, replace_all, replace_str, str_ends_with, strip_whitespace, without_ws};

verus! {

/// The compiled layouts and themes under a style root.
#[derive(Debug)]
pub struct Styles {
    root: String,
    layouts: StrMap,
    themes: StrMap,
}

/// The key of a style source file whose path, relative to its directory, is
/// `path`: with `\` turned into `/`, a path that ends in `.scss` is kept
/// with every `.scss` taken out; other files have no key.
pub open spec fn style_key(path: Seq<char>) -> Option<Seq<char>> {
    let p = replace_all(path, seq!['\\'], seq!['/']);
    if ends_with(p, ".scss"@) {
        Some(replace_all(p, ".scss"@, Seq::<char>::empty()))
    } else {
        None
    }
}

/// The sheet named `name` in `sheets`, without whitespace; nothing if there is
/// none.
pub open spec fn sheet_text(sheets: Map<Seq<char>, Seq<char>>, name: Seq<char>) -> Seq<char> {
    if sheets.contains_key(name) {
        without_ws(sheets[name])
    } else {
        Seq::<char>::empty()
    }
}

impl Styles {
    /// The directory the styles were compiled from.
    pub closed spec fn spec_root(&self) -> Seq<char> {
        self.root@
    }

    /// The compiled layouts, by name.
    pub closed spec fn spec_layouts(&self) -> Map<Seq<char>, Seq<char>> {
        self.layouts@
    }

    /// The compiled themes, by name.
    pub closed spec fn spec_themes(&self) -> Map<Seq<char>, Seq<char>> {
        self.themes@
    }

    /// The key under which a compiled style file is kept, for a file whose
    /// path relative to its directory is `path`; `None` for a file that is not
    /// a `.scss` source.
    pub fn key_for(path: &str) -> (r: Option<String>)
        ensures
            match style_key(path@) {
                Some(k) => r matches Some(s) && s@ == k,
                None => r is None,
            },
            !path@.contains('\\') && ends_with(path@, ".scss"@) ==> (r matches Some(s) && s@
                == replace_all(path@, ".scss"@, Seq::<char>::empty())),
    {
        proof {
            if !path@.contains('\\') && ends_with(path@, ".scss"@) {
                law_style_key_keeps_path(path@);
            }
        }
        proof {
            reveal_strlit("\\");
            reveal_strlit("/");
            reveal_strlit(".scss");
            reveal_strlit("");
        }
        let slashed = replace_str(path, "\\", "/");
        assert("\\"@ =~= seq!['\\']);
        assert("/"@ =~= seq!['/']);
        assert(""@ =~= Seq::<char>::empty());
        if str_ends_with(slashed.as_str(), ".scss") {
            Some(replace_str(slashed.as_str(), ".scss", ""))
        } else {
            None
        }
    }

    /// The styles under `root`, from the compiled layouts and themes, each
    /// given as (key, compiled sheet) in the order the files were found; a
    /// later sheet with the same key takes the place of an earlier one.
    pub fn from(root: &str, layouts: Vec<(String, String)>, themes: Vec<(String, String)>) -> (r:
        Styles)
        ensures
            r.spec_root() == root@,
            r.spec_layouts() == crate::strmap::entries_map(layouts@),
            r.spec_themes() == crate::strmap::entries_map(themes@),
    {
        Styles {
            root: root.to_owned(),
            layouts: StrMap::from_entries(layouts),
            themes: StrMap::from_entries(themes),
        }
    }

    /// The layout named `name`, without whitespace; empty if there is none.
    pub fn layout(&self, name: &str) -> (r: String)
        ensures
            r@ == sheet_text(self.spec_layouts(), name@),
            self.spec_layouts().contains_key(name@) ==> r@ == without_ws(
                self.spec_layouts()[name@],
            ),
    {
        match self.layouts.get(name) {
            Some(v) => strip_whitespace(v.as_str()),
            None => String::new(),
        }
    }

    /// The theme named `name`, without whitespace; empty if there is none.
    pub fn theme(&self, name: &str) -> (r: String)
        ensures
            r@ == sheet_text(self.spec_themes(), name@),
            self.spec_themes().contains_key(name@) ==> r@ == without_ws(self.spec_themes()[name@]),
    {
        match self.themes.get(name) {
            Some(v) => strip_whitespace(v.as_str()),
            None => String::new(),
        }
    }

    /// A `<style>` element holding the theme `theme` and then the layout
    /// `layout`.
    pub fn sheet(&self, theme: &str, layout: &str) -> (r: String)
        ensures
            r@ == "<style>"@ + sheet_text(self.spec_themes(), theme@) + sheet_text(
                self.spec_layouts(),
                layout@,
            ) + "</style>"@,
    {
        let mut out = "<style>".to_owned();
        let t = self.theme(theme);
        let l = self.layout(layout);
        out.append(t.as_str());
        out.append(l.as_str());
        out.append("</style>");
        out
    }
}

/// Text with its whitespace taken out holds no whitespace.
proof fn lemma_without_ws(s: Seq<char>)
    ensures
        forall|i: int| 0 <= i < without_ws(s).len() ==> !is_ws(#[trigger] without_ws(s)[i]),
    decreases s.len(),
{
    if s.len() > 0 {
        lemma_without_ws(s.drop_last());
        let w = without_ws(s.drop_last());
        if !is_ws(s.last()) {
            assert forall|i: int| 0 <= i < w.push(s.last()).len() implies !is_ws(
                #[trigger] w.push(s.last())[i],
            ) by {
                if i < w.len() {
                    assert(w.push(s.last())[i] == w[i]);
                }
            }
        }
    }
}

/// A layout or theme as served holds no whitespace.
pub proof fn law_sheet_text_has_no_whitespace(sheets: Map<Seq<char>, Seq<char>>, name: Seq<char>)
    ensures
        forall|i: int|
            0 <= i < sheet_text(sheets, name).len() ==> !is_ws(#[trigger] sheet_text(sheets, name)[i]),
{
    if sheets.contains_key(name) {
        lemma_without_ws(sheets[name]);
    }
}

/// Replacing a character that does not occur leaves the text as it is.
pub proof fn law_replace_absent_char(s: Seq<char>, c: char, rep: Seq<char>)
    requires
        !s.contains(c),
    ensures
        replace_all(s, seq![c], rep) == s,
    decreases s.len(),
{
    if s.len() > 0 {
        assert(s[0] != c);
        assert(s.subrange(0, 1) =~= seq![s[0]]);
        assert(!occurs_at(s, seq![c], 0)) by {
            if occurs_at(s, seq![c], 0) {
                assert(s.subrange(0, 1)[0] == seq![c][0]);
            }
        }
        assert forall|i: int| 0 <= i < s.drop_first().len() implies s.drop_first()[i] != c by {
            assert(s.drop_first()[i] == s[i + 1]);
        }
        law_replace_absent_char(s.drop_first(), c, rep);
        assert(seq![s[0]] + s.drop_first() =~= s);
    }
}

/// A style file's key is its whole relative path, directories included,
/// with only the `.scss` text taken out.
pub proof fn law_style_key_keeps_path(path: Seq<char>)
    requires
        !path.contains('\\'),
        ends_with(path, ".scss"@),
    ensures
        style_key(path) == Some(replace_all(path, ".scss"@, Seq::<char>::empty())),
{
    law_replace_absent_char(path, '\\', seq!['/']);
}

/// A layout or theme is served with every non-whitespace character of the
/// stored sheet, in order, whatever its length.
pub proof fn law_sheet_text_keeps_all(sheets: Map<Seq<char>, Seq<char>>, name: Seq<char>)
    requires
        sheets.contains_key(name),
    ensures
        sheet_text(sheets, name) == without_ws(sheets[name]),
        (forall|i: int| 0 <= i < sheets[name].len() ==> !is_ws(#[trigger] sheets[name][i]))
            ==> sheet_text(sheets, name) == sheets[name],
{
    law_without_ws_of_no_ws(sheets[name]);
}

/// Taking whitespace out of text that has none gives the text back.
pub proof fn law_without_ws_of_no_ws(s: Seq<char>)
    ensures
        (forall|i: int| 0 <= i < s.len() ==> !is_ws(#[trigger] s[i])) ==> without_ws(s) == s,
    decreases s.len(),
{
    if s.len() > 0 {
        law_without_ws_of_no_ws(s.drop_last());
        if forall|i: int| 0 <= i < s.len() ==> !is_ws(#[trigger] s[i]) {
            assert forall|i: int| 0 <= i < s.drop_last().len() implies !is_ws(
                #[trigger] s.drop_last()[i],
            ) by {
                assert(s.drop_last()[i] == s[i]);
            }
            assert(!is_ws(s[s.len() - 1]));
            assert(s.drop_last().push(s.last()) =~= s);
        }
    }
}

/// Taking whitespace out of two texts one after the other is taking it out
/// of each: every non-whitespace character stays, in order.
pub proof fn law_without_ws_concat(a: Seq<char>, b: Seq<char>)
    ensures
        without_ws(a + b) == without_ws(a) + without_ws(b),
    decreases b.len(),
{
    if b.len() == 0 {
        assert(a + b =~= a);
        assert(without_ws(a) + without_ws(b) =~= without_ws(a));
    } else {
        law_without_ws_concat(a, b.drop_last());
        assert((a + b).drop_last() =~= a + b.drop_last());
        assert((a + b).last() == b.last());
        if !is_ws(b.last()) {
            assert((without_ws(a) + without_ws(b.drop_last())).push(b.last()) =~= without_ws(a)
                + without_ws(b.drop_last()).push(b.last()));
        }
    }
}

} // verus!
