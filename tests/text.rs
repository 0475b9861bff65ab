use ritz::config::{Config, STD_PORT};
use ritz::escape::{xmlencode, xmlencodeline};
use ritz::page::{basename, footer, header, repo_list, repo_nav, write_blob, write_files, TreeEntry};

#[test]
fn xmlencode_escapes_markup() {
    assert_eq!(xmlencode("<a href='x'>&\"</a>"), "&lt;a href=&#39;x&#39;&gt;&amp;&quot;&lt;/a&gt;");
    assert_eq!(xmlencode(""), "");
    assert_eq!(xmlencode("plain text ü"), "plain text ü");
}

#[test]
fn line_sanitizer_strips_line_ends() {
    let s = "a<b&c\"d'e\r\nf";
    assert_eq!(xmlencodeline(s), "a&lt;b&amp;c&quot;d&#39;ef");
    assert_eq!(xmlencode(s), "a&lt;b&amp;c&quot;d&#39;e\r\nf");
    assert_eq!(xmlencodeline("\r\n\n"), "");
}

#[test]
fn basename_takes_last_component() {
    assert_eq!(basename("/srv/git/repo.git", '/'), "repo.git");
    assert_eq!(basename("repo", '/'), "repo");
    assert_eq!(basename("a/b/", '/'), "");
    assert_eq!(basename("", '/'), "");
    assert_eq!(basename("x:y", ':'), "y");
}

#[test]
fn page_chrome() {
    assert!(header().starts_with("<!DOCTYPE html><html> <head> <link rel=\"stylesheet\""));
    assert!(header().ends_with("</head> <body>"));
    assert_eq!(footer(), "</body></html>");
}

#[test]
fn repository_nav_and_list() {
    let nav = repo_nav("ritz");
    assert!(nav.starts_with("<h1>ritz</h1><span>git clone git://ritz.git</span>"));
    assert!(nav.contains("<a href=\"/ritz/refs\">Refs</a>"));
    assert!(nav.ends_with("<hr/>"));
    let list = repo_list(&vec!["./a".to_string(), "/x/b.git".to_string()]);
    assert_eq!(
        list,
        "<span>Repositories</span><hr/><table><thead><tr><td><b>Name</b></td></tr></thread>\
         <tr><td><a href=/a>a</a></td></td><tr><td><a href=/b.git>b.git</a></td></td></table>"
    );
}

#[test]
fn tree_listing() {
    let out = write_files(&vec![
        TreeEntry { mode: 0o100644, name: "README".to_string(), size: Some(12) },
        TreeEntry { mode: 0o40000, name: "src".to_string(), size: Some(0) },
        TreeEntry { mode: 0o160000, name: "sub".to_string(), size: None },
    ]);
    assert!(out.starts_with("<table><thead><tr>"));
    assert!(out.contains("<tr><td>100644</td><td><a href=README/>README</a></td><td>12</td></tr>"));
    assert!(out.contains("<tr><td>40000</td><td><a href=src/>src</a></td><td>0</td></tr>"));
    assert!(out.contains("<tr><td>160000</td><td><a href=sub/>sub</a></td></tr>"));
    assert!(out.ends_with("</table>"));
}

#[test]
fn blob_view() {
    assert_eq!(
        write_blob("src/a.c", 9, false, b"x < y;\n"),
        "<p>a.c (9B)</p><hr><pre>x &lt; y;\n</pre>"
    );
    assert_eq!(write_blob("img.png", 1024, true, b"\x89PNG"), "<p>img.png (1024B)</p><hr><p>Binary file.</p>");
}

#[test]
fn config_defaults() {
    let c = Config::with_defaults(None, None);
    assert_eq!((c.dir.as_str(), c.port), ("./", 3000));
    assert_eq!(STD_PORT, 3000);
    let c = Config::with_defaults(Some("/srv/git".to_string()), Some(8080));
    assert_eq!((c.dir.as_str(), c.port), ("/srv/git", 8080));
}
