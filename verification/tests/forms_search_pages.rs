use whirlpool::Digest;
use bowtie::forms::{Action, RegisterForm, ViewForm};
use bowtie::models::page_window;
use bowtie::resources::{Page, PageReply, PageType, Resources};
use bowtie::search::{SearchError, SearchQuery, Target};
use bowtie::styles::Styles;
use bowtie::user::{hash_password, User};

fn form(action: &str, value: &str) -> ViewForm {
    ViewForm { value: value.to_string(), action: action.to_string() }
}

#[test]
fn view_form_actions() {
    assert!(matches!(Action::from(form("create", "blog")), Action::Create(ref v) if v == "blog"));
    assert!(matches!(Action::from(form("delete", "12")), Action::Delete(12)));
    assert!(matches!(Action::from(form("delete", "x")), Action::Unknown));
    assert!(matches!(Action::from(form("active", "-3")), Action::Active(-3)));
    assert!(matches!(Action::from(form("active", "")), Action::Unknown));
    assert!(matches!(Action::from(form("rename", "1")), Action::Unknown));
}

#[test]
fn register_passwords() {
    let f = RegisterForm { username: "u".into(), password1: "a".into(), password2: "a".into() };
    assert!(f.passwords_match());
    let g = RegisterForm { username: "u".into(), password1: "a".into(), password2: "b".into() };
    assert!(!g.passwords_match());
}

fn fields(pairs: &[(&str, &str)]) -> Vec<(String, String)> {
    pairs.iter().map(|(k, v)| (k.to_string(), v.to_string())).collect()
}

#[test]
fn search_form_reading() {
    let q = SearchQuery::from_form(&fields(&[("value", "hello+world%21"), ("people", "on")]), true).unwrap();
    assert_eq!(q.value, "hello world!");
    assert_eq!(q.targets, vec![Target::People]);
    assert!(q.includes(Target::People));
    assert!(!q.includes(Target::Posts));
    assert_eq!(q.like_pattern(), "%hello world!%");

    let q = SearchQuery::from_form(&fields(&[("posts", ""), ("extra", "1"), ("value", "x")]), false).unwrap();
    assert_eq!(q.value, "x");
    assert_eq!(q.targets, vec![Target::Posts]);

    assert!(matches!(
        SearchQuery::from_form(&fields(&[("value", "x"), ("extra", "1")]), true),
        Err(SearchError::UnknownFields)
    ));
    assert!(matches!(
        SearchQuery::from_form(&fields(&[("value", "%FF")]), false),
        Err(SearchError::BadDecode)
    ));
    let empty = SearchQuery::from_form(&fields(&[]), true).unwrap();
    assert_eq!(empty.value, "");
    assert!(empty.targets.is_empty());
}

fn pairs(v: &[(&str, &str)]) -> Vec<(String, String)> {
    fields(v)
}

#[test]
fn style_keys_and_sheets() {
    assert_eq!(Styles::key_for("dark.scss"), Some("dark".to_string()));
    assert_eq!(Styles::key_for("sub\\wide.scss"), Some("sub/wide".to_string()));
    assert_eq!(Styles::key_for("a.scss.scss"), Some("a".to_string()));
    assert_eq!(Styles::key_for("plain.css"), None);
    assert_eq!(Styles::key_for(""), None);

    let styles = Styles::from(
        "/styles",
        pairs(&[("main", "body { margin: 0; }"), ("main", "p { x: y }")]),
        pairs(&[("dark", "a {\n color: black;\n}")]),
    );
    assert_eq!(styles.layout("main"), "p{x:y}");
    assert_eq!(styles.layout("missing"), "");
    assert_eq!(styles.theme("dark"), "a{color:black;}");
    assert_eq!(styles.sheet("dark", "main"), "<style>a{color:black;}p{x:y}</style>");
    assert_eq!(styles.sheet("none", "none"), "<style></style>");
}

#[test]
fn resource_keys() {
    assert_eq!(Resources::key_for("profile/feed.js"), "profile/feed");
    assert_eq!(Resources::key_for("a/b.min.js"), "a/b.min");
    assert_eq!(Resources::key_for(".hidden"), ".hidden");
    assert_eq!(Resources::key_for("dir.d/file"), "dir.d/file");
    assert_eq!(Resources::key_for("a\\b.scss"), "a/b");
    assert_eq!(Resources::key_for(".."), "..");
    for p in ["x/y.tar.gz", "noext", "a.b/c.d", "q/.rc", "z."].iter() {
        let std_key = std::path::Path::new(p).with_extension("").to_string_lossy().to_string();
        assert_eq!(Resources::key_for(p), std_key);
    }
}

#[test]
fn pages_from_resources() {
    let mut r = Resources::new("/res");
    let p = r.page("/public/index", false);
    assert!(matches!(p.response, PageType::Empty));
    assert!(p.secure);

    r.set_html_loaded();
    r.add_css("public/index".to_string(), "body{}".to_string());
    r.add_js("public/index".to_string(), "run()".to_string());
    let p = r.page("//public/index", false);
    assert_eq!(p.name, "public/index");
    assert_eq!(p.styles, "body{}");
    assert_eq!(p.scripts, "run()");
    assert!(matches!(p.reply(false), PageReply::Render { ref template } if template == "public/index.html"));

    let secure = r.page("/profile/feed", true);
    assert_eq!(secure.styles, "");
    assert!(matches!(secure.reply(false), PageReply::NotFound));
    assert!(matches!(secure.reply(true), PageReply::Render { .. }));

    assert!(matches!(Page::plain("<p>hi</p>").reply(false), PageReply::Body(ref b) if b == "<p>hi</p>"));
    assert!(matches!(Page::none().reply(true), PageReply::NotFound));

    assert_eq!(Page::route("/search", Some("value=x")), "/search?value=x");
    assert_eq!(Page::route("/about", None), "/about");
}

#[test]
fn password_hashes() {
    let expected = base64::encode(&whirlpool::Whirlpool::new().chain("secret").result());
    assert_eq!(hash_password("secret"), expected);
    assert_ne!(hash_password("secret"), "secret");
    let user = User { id: 1, email: None, username: "u".into(), passhash: expected };
    assert!(user.validate("secret"));
    assert!(!user.validate("Secret"));
}

#[test]
fn paging() {
    assert_eq!(page_window(None, None), (0, 50, 0));
    assert_eq!(page_window(Some(3), None), (3, 50, 150));
    assert_eq!(page_window(Some(2), Some(10)), (2, 10, 20));
}
