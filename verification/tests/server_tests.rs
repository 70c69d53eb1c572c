use sitegen::datetime::Datetime;
use sitegen::post::PostBuilder;
use sitegen::server::Server;

#[test]
fn error_message_holds_title_and_detail() {
    let body = Server::error_message("404 Not Found", "Requested: \"/x\"");
    let text = String::from_utf8(body).unwrap();
    assert!(text.contains("<!DOCTYPE html>"));
    assert!(text.contains("<h1>404 Not Found</h1>"));
    assert!(text.contains("Requested: \"/x\""));
    assert!(text.trim_start().starts_with("<!DOCTYPE html>"));
}

#[test]
fn post_identifier_trims_markdown_suffix() {
    let b = PostBuilder {
        file_name: "notes.md".to_string(),
        is_dir: false,
        files: Vec::new(),
        meta: None,
        fallback_date: Datetime { date: None, time: None, offset: None },
        logs: Vec::new(),
    };
    assert_eq!(b.get_file_name(), "notes");
    let d = PostBuilder { file_name: "notes.md".to_string(), is_dir: true, ..b };
    // a directory-backed post keeps its directory name whole
    assert_eq!(d.get_file_name(), "notes.md");
}
