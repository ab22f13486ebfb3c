use mobile_cam::frontend::{fallback, get, resolve, StaticFiles};

fn files() -> StaticFiles {
    let mut f = StaticFiles::new();
    f.add("index.html".to_string(), b"home".to_vec());
    f.add("app.js".to_string(), b"js".to_vec());
    f.add("viewer.html".to_string(), b"viewer".to_vec());
    f.add("docs/index.html".to_string(), b"docs".to_vec());
    f
}

#[test]
fn get_finds_files_by_path() {
    let f = files();
    assert_eq!(get(&f, "app.js"), Some(&b"js"[..]));
    assert_eq!(get(&f, "missing"), None);
}

#[test]
fn exact_files_get_their_guessed_type() {
    let f = files();
    assert_eq!(resolve(&f, "app.js"), Some((&b"js"[..], "text/javascript".to_string())));
    assert_eq!(resolve(&f, "index.html"), Some((&b"home"[..], "text/html".to_string())));
}

#[test]
fn directories_get_their_index() {
    let f = files();
    let html = "text/html; charset=utf-8".to_string();
    assert_eq!(resolve(&f, ""), Some((&b"home"[..], html.clone())));
    assert_eq!(resolve(&f, "docs/"), Some((&b"docs"[..], html.clone())));
    assert_eq!(fallback(&f, "docs/"), Some(&b"docs"[..]));
}

#[test]
fn pages_get_their_html_file() {
    let f = files();
    let html = "text/html; charset=utf-8".to_string();
    assert_eq!(resolve(&f, "viewer"), Some((&b"viewer"[..], html.clone())));
    assert_eq!(resolve(&f, "docs"), Some((&b"docs"[..], html)));
    assert_eq!(resolve(&f, "nothing"), None);
    assert_eq!(resolve(&f, "nothing/"), None);
}
