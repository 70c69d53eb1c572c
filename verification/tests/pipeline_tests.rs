use sitegen::datetime::Datetime;
use sitegen::pipeline::process_post;
use sitegen::post::{LogLine, PostBuilder};
use sitegen::store::AssetStore;
use sitegen::tokens::Token;

const PNG_1X1: [u8; 69] = [
    137, 80, 78, 71, 13, 10, 26, 10, 0, 0, 0, 13, 73, 72, 68, 82, 0, 0, 0, 1, 0, 0, 0, 1, 8, 2, 0,
    0, 0, 144, 119, 83, 222, 0, 0, 0, 12, 73, 68, 65, 84, 120, 156, 99, 248, 207, 192, 0, 0, 3, 1,
    1, 0, 201, 254, 146, 239, 0, 0, 0, 0, 73, 69, 78, 68, 174, 66, 96, 130,
];

fn no_date() -> Datetime {
    Datetime { date: None, time: None, offset: None }
}

fn builder(name: &str, is_dir: bool, files: Vec<(String, Vec<u8>)>) -> PostBuilder {
    PostBuilder {
        file_name: name.to_string(),
        is_dir,
        files,
        meta: None,
        fallback_date: no_date(),
        logs: Vec::new(),
    }
}

fn text(s: &str) -> Token {
    Token::Text(s.to_string())
}

fn image(url: &str) -> Token {
    Token::ImageStart { url: url.to_string(), title: String::new() }
}

#[test]
fn metadata_round_trip() {
    let tokens = vec![
        Token::MetaStart,
        text("title = \"T\"\ntags = [\"x\", \"y\"]\ndate = 2024-05-01T10:30:00Z\n"),
        Token::MetaEnd,
        text("body"),
    ];
    let (out, b, _) = process_post(tokens, builder("p.md", false, Vec::new()), AssetStore::new());
    let meta = b.meta.expect("metadata should be set");
    assert_eq!(meta.title, "T");
    assert_eq!(meta.tags, vec!["x".to_string(), "y".to_string()]);
    // the metadata block text does not reappear in the body
    assert_eq!(out, vec![text("body")]);
}

#[test]
fn metadata_fallback_uses_identifier_and_warns() {
    let tokens = vec![text("hello")];
    let (_, b, _) = process_post(tokens, builder("my-post.md", false, Vec::new()), AssetStore::new());
    assert!(b.meta.is_none());
    let (post, logs) = b.build("<p>hello</p>".to_string());
    assert_eq!(post.meta.title, "my-post");
    assert_eq!(post.id, "my-post");
    assert!(logs.contains(&LogLine::DefaultMetadata));
    assert!(logs.contains(&LogLine::DefaultTitle));
}

#[test]
fn malformed_metadata_is_passed_through_verbatim() {
    let tokens = vec![Token::MetaStart, text("title = \"unterminated\n"), Token::MetaEnd];
    let (out, b, _) = process_post(tokens, builder("p.md", false, Vec::new()), AssetStore::new());
    assert!(b.meta.is_none());
    assert_eq!(
        out,
        vec![Token::MetaStart, text("title = \"unterminated\n"), Token::MetaEnd]
    );
    assert!(b.logs.contains(&LogLine::MetadataError));
}

#[test]
fn unsupported_language_passes_code_through() {
    let tokens = vec![
        Token::CodeStart("no-such-language-zz".to_string()),
        text("let x = 1;"),
        Token::CodeEnd,
    ];
    let (out, b, _) = process_post(tokens, builder("p.md", false, Vec::new()), AssetStore::new());
    assert_eq!(
        out,
        vec![
            Token::CodeStart("no-such-language-zz".to_string()),
            text("let x = 1;"),
            Token::CodeEnd,
        ]
    );
    assert!(b
        .logs
        .iter()
        .any(|l| matches!(l, LogLine::UnsupportedLanguage(lang) if lang == "no-such-language-zz")));
}

#[test]
fn supported_language_is_highlighted_with_line_markers() {
    let tokens = vec![
        Token::CodeStart("rust".to_string()),
        text("let x = 1;\nlet y = 2;"),
        Token::CodeEnd,
    ];
    let (out, _, _) = process_post(tokens, builder("p.md", false, Vec::new()), AssetStore::new());
    assert_eq!(out.len(), 3);
    assert_eq!(out[0], Token::CodeStart("rust".to_string()));
    match &out[1] {
        Token::Html(h) => {
            assert!(h.starts_with("<a-lf></a-lf>"));
            assert!(h.contains("let"));
            // really highlighted: not just the source with line markers
            assert_ne!(h, "<a-lf></a-lf>let x = 1;\n<a-lf></a-lf>let y = 2;");
        },
        other => panic!("expected highlighted markup, got {:?}", other),
    }
    assert_eq!(out[2], Token::CodeEnd);
}

#[test]
fn external_image_is_bypassed() {
    let tokens = vec![image("https://example.com/x.png"), text("alt"), Token::ImageEnd];
    let (out, b, store) =
        process_post(tokens, builder("p.md", false, Vec::new()), AssetStore::new());
    assert_eq!(
        out,
        vec![image("https://example.com/x.png"), text("alt"), Token::ImageEnd]
    );
    assert!(store.assets.is_empty());
    assert!(b.logs.is_empty());
}

#[test]
fn unresolvable_relative_image_is_passed_through() {
    let tokens = vec![image("missing.png"), text("alt"), Token::ImageEnd];
    let (out, b, _) = process_post(tokens, builder("p.md", false, Vec::new()), AssetStore::new());
    assert_eq!(out[0], image("missing.png"));
    assert!(b
        .logs
        .iter()
        .any(|l| matches!(l, LogLine::ImageResolveError(u) if u == "missing.png")));
}

#[test]
fn raster_images_are_embedded_and_deduplicated() {
    let mut store = AssetStore::new();
    let mut paths = Vec::new();
    for _ in 0..2 {
        let files = vec![("pic.png".to_string(), PNG_1X1.to_vec())];
        let tokens = vec![image("pic.png"), text("a picture"), Token::ImageEnd];
        let (out, _, store2) = process_post(tokens, builder("post", true, files), store);
        store = store2;
        assert_eq!(out[0], Token::Html("<figure>".to_string()));
        match &out[1] {
            Token::Html(h) => {
                assert!(h.starts_with("<img src=\"/assets/"));
                assert!(h.contains(".webp\" alt=\"a picture\">"));
                paths.push(h.clone());
            },
            other => panic!("expected an img tag, got {:?}", other),
        }
        assert_eq!(out[2], Token::Html("<figcaption>".to_string()));
        assert_eq!(out[3], text("a picture"));
        assert_eq!(out[4], Token::Html("</figcaption></figure>".to_string()));
    }
    // identical decoded content: one stored asset, both documents use its path
    assert_eq!(paths[0], paths[1]);
    assert_eq!(store.assets.len(), 1);
    // the stored payload really is WebP, not the original PNG
    for blob in store.assets.values() {
        assert_eq!(&blob.bytes[0..4], b"RIFF");
        assert_eq!(blob.ext, "webp");
    }
}

#[test]
fn undecodable_raster_is_passed_through() {
    let files = vec![("pic.png".to_string(), vec![1, 2, 3])];
    let tokens = vec![image("pic.png"), text("alt"), Token::ImageEnd];
    let (out, b, store) = process_post(tokens, builder("post", true, files), AssetStore::new());
    assert_eq!(out[0], image("pic.png"));
    assert!(store.assets.is_empty());
    assert!(b.logs.iter().any(|l| matches!(l, LogLine::TranscodeError(_))));
}

#[test]
fn svg_images_are_inlined_with_distinct_id_prefixes() {
    let svg_a = "<svg xmlns=\"http://www.w3.org/2000/svg\"><rect id=\"a\" width=\"10\" height=\"10\"/></svg>";
    let svg_b = "<svg xmlns=\"http://www.w3.org/2000/svg\"><circle id=\"a\" r=\"5\" fill=\"url(#a)\"/></svg>";
    let mut markups = Vec::new();
    for svg in [svg_a, svg_b] {
        let files = vec![("img.svg".to_string(), svg.as_bytes().to_vec())];
        let tokens = vec![image("img.svg"), text("alt text"), Token::ImageEnd];
        let (out, _, _) = process_post(tokens, builder("post", true, files), AssetStore::new());
        assert_eq!(out[0], Token::Html("<figure>".to_string()));
        match &out[1] {
            Token::Html(h) => markups.push(h.clone()),
            other => panic!("expected inlined svg, got {:?}", other),
        }
        assert_eq!(out[2], Token::Html("<figcaption>".to_string()));
        assert_eq!(out[3], text("alt text"));
        assert_eq!(out[4], Token::Html("</figcaption></figure>".to_string()));
    }
    // each id carries its own source's hash prefix: the two ids differ
    let id_of = |m: &str| {
        let start = m.find("id=\"").map(|i| i + 4)?;
        let end = m[start..].find('"').map(|i| start + i)?;
        Some(m[start..end].to_string())
    };
    let id_a = id_of(&markups[0]);
    let id_b = id_of(&markups[1]);
    if let (Some(a), Some(b)) = (id_a, id_b) {
        assert_ne!(a, b);
        assert!(a.ends_with("-a") && b.ends_with("-a"));
    }
}

#[test]
fn svg_accessibility_attributes_are_set() {
    let svg = "<svg xmlns=\"http://www.w3.org/2000/svg\"><rect width=\"3\" height=\"3\"/></svg>";
    let files = vec![("img.svg".to_string(), svg.as_bytes().to_vec())];
    let tokens = vec![image("img.svg"), text("a square"), Token::ImageEnd];
    let (out, _, _) = process_post(tokens, builder("post", true, files), AssetStore::new());
    match &out[1] {
        Token::Html(h) => {
            assert!(h.contains("role=\"img\""));
            assert!(h.contains("<title>a square</title>"));
        },
        other => panic!("expected inlined svg, got {:?}", other),
    }
}

#[test]
fn inline_math_is_rendered_to_mathml() {
    let tokens = vec![Token::InlineMath("x^2".to_string()), text("after")];
    let (out, _, _) = process_post(tokens, builder("p.md", false, Vec::new()), AssetStore::new());
    assert_eq!(out.len(), 2);
    match &out[0] {
        Token::Html(h) => assert!(h.contains("<math")),
        other => panic!("expected mathml, got {:?}", other),
    }
    assert_eq!(out[1], text("after"));
}

#[test]
fn failed_math_is_dropped_with_an_error() {
    let tokens = vec![
        Token::DisplayMath("\\frac{".to_string()),
        text("after"),
        Token::InlineMath("x^2".to_string()),
    ];
    let (out, b, _) = process_post(tokens, builder("p.md", false, Vec::new()), AssetStore::new());
    // the failed math token vanishes entirely; every later token is still
    // processed, so the second math span renders
    assert_eq!(out.len(), 2);
    assert_eq!(out[0], text("after"));
    assert!(matches!(&out[1], Token::Html(h) if h.contains("<math")));
    assert!(b.logs.contains(&LogLine::MathError));
}

#[test]
fn foreign_token_inside_a_block_aborts_to_passthrough() {
    let tokens = vec![
        Token::CodeStart("rust".to_string()),
        Token::Other(7),
        Token::CodeEnd,
        text("rest"),
    ];
    let (out, b, _) = process_post(tokens, builder("p.md", false, Vec::new()), AssetStore::new());
    assert_eq!(
        out,
        vec![Token::CodeStart("rust".to_string()), Token::Other(7), Token::CodeEnd, text("rest")]
    );
    assert!(b.logs.iter().any(
        |l| matches!(l, LogLine::AccumulateError(d, k) if d == "code block" && k == "another structural unit")
    ));
}

#[test]
fn alt_text_math_survives_the_image_stage() {
    let tokens = vec![
        image("https://example.com/x.png"),
        Token::InlineMath("y".to_string()),
        Token::ImageEnd,
    ];
    let (out, _, _) = process_post(tokens, builder("p.md", false, Vec::new()), AssetStore::new());
    // the math inside the bypassed image's alt text is rendered by the later pass
    assert_eq!(out[0], image("https://example.com/x.png"));
    assert!(matches!(&out[1], Token::Html(h) if h.contains("<math")));
    assert_eq!(out[2], Token::ImageEnd);
}

#[test]
fn unparseable_image_url_is_passed_through_with_an_error() {
    let tokens = vec![image("http://["), text("alt"), Token::ImageEnd];
    let (out, b, _) = process_post(tokens, builder("p.md", false, Vec::new()), AssetStore::new());
    assert_eq!(out, vec![image("http://["), text("alt"), Token::ImageEnd]);
    assert!(b.logs.iter().any(|l| matches!(l, LogLine::ImageUrlError(u) if u == "http://[")));
}

#[test]
fn untouched_streams_come_out_unchanged_in_order() {
    let tokens = vec![
        Token::Other(0),
        text("one"),
        Token::Html("<hr>".to_string()),
        Token::Other(1),
        text("two"),
    ];
    let expect = vec![
        Token::Other(0),
        text("one"),
        Token::Html("<hr>".to_string()),
        Token::Other(1),
        text("two"),
    ];
    let (out, b, store) =
        process_post(tokens, builder("p.md", false, Vec::new()), AssetStore::new());
    assert_eq!(out, expect);
    assert!(b.logs.is_empty());
    assert!(store.assets.is_empty());
}

#[test]
fn comment_reference_needs_both_parts() {
    let tokens = vec![
        Token::MetaStart,
        text("title = \"T\"\nghcommentid = 3\n"),
        Token::MetaEnd,
    ];
    let (_, b, _) = process_post(tokens, builder("p.md", false, Vec::new()), AssetStore::new());
    let meta = b.meta.expect("metadata should be set");
    assert_eq!(meta.ghcomment, None);
}

#[test]
fn token_after_metadata_block_is_emitted_raw() {
    // the pull that consumes the metadata block hands the following token on
    // without processing it: a code block start right after the metadata
    // block escapes highlighting
    let tokens = vec![
        Token::MetaStart,
        text("title = \"T\"\n"),
        Token::MetaEnd,
        Token::CodeStart("rust".to_string()),
        text("let x = 1;"),
        Token::CodeEnd,
    ];
    let (out, _, _) = process_post(tokens, builder("p.md", false, Vec::new()), AssetStore::new());
    assert_eq!(
        out,
        vec![Token::CodeStart("rust".to_string()), text("let x = 1;"), Token::CodeEnd]
    );
}

#[test]
fn empty_stream_is_a_whole_document() {
    let (out, b, store) =
        process_post(Vec::new(), builder("p.md", false, Vec::new()), AssetStore::new());
    assert!(out.is_empty());
    assert!(b.meta.is_none());
    assert!(store.assets.is_empty());
}

#[test]
fn unparseable_svg_is_inlined_raw_with_a_warning() {
    let files = vec![("img.svg".to_string(), b"not an svg at all".to_vec())];
    let tokens = vec![image("img.svg"), text("alt"), Token::ImageEnd];
    let (out, b, _) = process_post(tokens, builder("post", true, files), AssetStore::new());
    // the fallback still inlines, but verbatim and with a warning
    assert_eq!(out[0], Token::Html("<figure>".to_string()));
    assert_eq!(out[1], Token::Html("not an svg at all".to_string()));
    assert!(b.logs.iter().any(|l| matches!(l, LogLine::SvgOptimizeWarning(u) if u == "img.svg")));
    assert!(b.logs.iter().any(|l| matches!(l, LogLine::SvgInlined(u) if u == "img.svg")));
}

#[test]
fn non_text_svg_file_is_passed_through() {
    let files = vec![("img.svg".to_string(), vec![0xff, 0xfe, 0x00])];
    let tokens = vec![image("img.svg"), text("alt"), Token::ImageEnd];
    let (out, b, _) = process_post(tokens, builder("post", true, files), AssetStore::new());
    assert_eq!(out, vec![image("img.svg"), text("alt"), Token::ImageEnd]);
    assert!(b.logs.iter().any(|l| matches!(l, LogLine::ImageReadError(u) if u == "img.svg")));
}
