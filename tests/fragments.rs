use lazy_load::fragment::{render_fragment, Fragment, CONTENT_DELAY_MS, CONTENT_MARKER, HTML_TYPE};
use lazy_load::handlers::{default_view, delay_ms, index, load_image, loading_text, respond, route};
use lazy_load::markup::{render, Attr, Directive, Swap, Tag, Token, Trigger};

fn count(hay: &str, needle: &str) -> usize {
    hay.matches(needle).count()
}

#[test]
fn every_fragment_is_html_and_non_empty() {
    for r in [index(), loading_text(), load_image(), default_view()] {
        assert_eq!(r.status, 200);
        assert_eq!(r.content_type, "text/html; charset=utf-8");
        assert_eq!(r.content_type, HTML_TYPE);
        assert!(!r.body.is_empty());
        assert_eq!(count(&r.body, "<button"), count(&r.body, "</button>"));
        assert_eq!(count(&r.body, "<div"), count(&r.body, "</div>"));
    }
}

#[test]
fn entry_has_one_control_to_loading_path() {
    let body = index().body;
    assert_eq!(count(&body, "hx-get="), 1);
    assert_eq!(count(&body, "hx-get=\"/loadimg\""), 1);
    assert!(body.contains("hx-trigger=\"click\""));
    assert!(body.contains("hx-swap=\"outerHTML\""));
    assert!(body.starts_with("<head><style>"));
    assert!(body.contains("<script src=\"https://unpkg.com/htmx.org@1.9.2\""));
    assert!(body.ends_with("</button></body>"));
}

#[test]
fn loading_fetches_content_on_load() {
    let body = loading_text().body;
    assert_eq!(
        body,
        "<div hx-get=\"/img\" hx-trigger=\"load\"><button class=\"btn\">Lazy Loading Image</button></div>"
    );
    assert_eq!(count(&body, "hx-get="), 1);
    assert!(!body.contains("click"));
}

#[test]
fn content_has_marker_and_reset_control() {
    let body = load_image().body;
    assert!(body.contains(CONTENT_MARKER));
    assert!(body.contains("<text> Image lazy loaded without page being refreshed </text>"));
    assert!(body.contains("<img id=\"myimage\" src=\"./static/image.png\" width=\"800\"/>"));
    assert!(body.contains(
        "<button class=\"btn\" hx-get=\"/default\" hx-trigger=\"click\" hx-target=\"#parent-div\"> Reset </button>"
    ));
    assert_eq!(count(&body, "hx-get="), 1);
}

#[test]
fn reset_is_the_entry_control_without_shell() {
    let reset = default_view().body;
    assert_eq!(
        reset,
        "<button class=\"btn\" hx-get=\"/loadimg\" hx-trigger=\"click\" hx-swap=\"outerHTML\"> Lazy Load Image </button>"
    );
    assert!(index().body.contains(&reset));
    assert!(!reset.contains("<head>"));
    assert!(!reset.contains("<style>"));
}

#[test]
fn rendering_is_deterministic() {
    for f in [Fragment::Entry, Fragment::LoadingIndicator, Fragment::LoadedContent, Fragment::ResetEntry] {
        assert_eq!(render_fragment(f), render_fragment(f));
        assert_eq!(respond(f).body, render_fragment(f));
    }
    assert_eq!(index().body, index().body);
    assert_eq!(load_image().body, load_image().body);
}

#[test]
fn routes_select_fragments() {
    assert_eq!(route("/"), Some(Fragment::Entry));
    assert_eq!(route("/loadimg"), Some(Fragment::LoadingIndicator));
    assert_eq!(route("/img"), Some(Fragment::LoadedContent));
    assert_eq!(route("/default"), Some(Fragment::ResetEntry));
    assert_eq!(route(""), None);
    assert_eq!(route("/img/"), None);
    assert_eq!(route("/static/image.png"), None);
    assert_eq!(route("/nothing"), None);
}

#[test]
fn only_content_is_delayed() {
    assert_eq!(CONTENT_DELAY_MS, 1000);
    assert_eq!(delay_ms(Fragment::LoadedContent), 1000);
    assert_eq!(delay_ms(Fragment::Entry), 0);
    assert_eq!(delay_ms(Fragment::LoadingIndicator), 0);
    assert_eq!(delay_ms(Fragment::ResetEntry), 0);
}

#[test]
fn render_writes_tokens_in_order() {
    let tokens = vec![
        Token::Open {
            tag: Tag::Div,
            attrs: vec![Attr { name: "id", value: "x" }, Attr { name: "class", value: "y" }],
            directive: Some(Directive { target: Fragment::ResetEntry, trigger: Trigger::Load, swap: Swap::IntoElement("x") }),
        },
        Token::Open { tag: Tag::Br, attrs: vec![], directive: None },
        Token::Text { text: "hi" },
        Token::Close { tag: Tag::Div },
    ];
    assert_eq!(
        render(&tokens),
        "<div id=\"x\" class=\"y\" hx-get=\"/default\" hx-trigger=\"load\" hx-target=\"#x\"><br/>hi</div>"
    );
    assert_eq!(render(&vec![]), "");
}
