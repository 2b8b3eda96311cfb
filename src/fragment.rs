//! The four fragments of the lazy reveal, which path serves each, and the
//! response that each request gets.
use vstd::prelude::*;
use vstd::string::*;
use crate::markup::{Attr, Directive, Swap, Tag, Token, TokenView, Trigger, render, serialize, tokens_view};

verus! {

/// One step of the lazy reveal.
#[derive(Clone, Copy, Debug, PartialEq, Eq, Structural)]
pub enum Fragment {
    /// The full page with the control that starts loading.
    Entry,
    /// A container that requests the content as soon as it is attached.
    LoadingIndicator,
    /// The content, with a control that resets the page.
    LoadedContent,
    /// The starting control again, without the page shell.
    ResetEntry,
}

/// The path that serves each fragment.
pub open spec fn path_of(f: Fragment) -> Seq<char> {
    match f {
        Fragment::Entry => "/"@,
        Fragment::LoadingIndicator => "/loadimg"@,
        Fragment::LoadedContent => "/img"@,
        Fragment::ResetEntry => "/default"@,
    }
}

pub fn path_str(f: Fragment) -> (r: &'static str)
    ensures
        r@ == path_of(f),
{
    match f {
        Fragment::Entry => "/",
        Fragment::LoadingIndicator => "/loadimg",
        Fragment::LoadedContent => "/img",
        Fragment::ResetEntry => "/default",
    }
}

/// The style sheet of the page shell.
pub const PAGE_STYLE: &'static str = "
                    #myimage {
                      animation: fadeIn 1s;
                    }
                    @keyframes fadeIn {
                        0% {opacity: 0;}
                        100% {opacity: 1;}
                    }
                    .btn {
                      display: inline-block;
                      padding: 10px 20px;
                      font-size: 16px;
                      font-weight: bold;
                      text-align: center;
                      text-decoration: none;
                      border: none;
                      border-radius: 5px;
                      cursor: pointer;
                      background-color: #313131;
                      color: #fff;
                      transition: background-color 0.3s ease, transform 0.3s ease;
                    }

                    .btn:hover {
                      background-color: #313131;
                      transform: scale(1.05);
                    }

                    .btn:active {
                      transform: scale(0.95);
                    }
                ";

/// Where the page shell loads the hypermedia client from.
pub const CLIENT_SCRIPT: &'static str = "https://unpkg.com/htmx.org@1.9.2";

/// The subresource digest of the hypermedia client.
pub const CLIENT_INTEGRITY: &'static str = "sha384-L6OqL9pRWyyFU3+/bjdSri+iIphTN/bvYyM37tICVyOJkWZLpP2vGn6VUEXgzg6h";

/// The text that marks the loaded content.
pub const CONTENT_MARKER: &'static str = " Image lazy loaded without page being refreshed ";

/// The id of the element that the reset control fills.
pub const CONTENT_ID: &'static str = "parent-div";

/// The media type of every fragment.
pub const HTML_TYPE: &'static str = "text/html; charset=utf-8";

/// How long the content takes to come, in milliseconds.
pub const CONTENT_DELAY_MS: u64 = 1000;

pub open spec fn btn_class() -> Attr {
    Attr { name: "class", value: "btn" }
}

/// The control that starts loading: it replaces itself with the loading indicator.
pub open spec fn start_directive() -> Directive {
    Directive { target: Fragment::LoadingIndicator, trigger: Trigger::Click, swap: Swap::ReplaceSelf }
}

/// The loading indicator fetches the content into itself as soon as it is attached.
pub open spec fn load_directive() -> Directive {
    Directive { target: Fragment::LoadedContent, trigger: Trigger::Load, swap: Swap::IntoSelf }
}

/// The reset control puts the starting control back into the content's container.
pub open spec fn reset_directive() -> Directive {
    Directive { target: Fragment::ResetEntry, trigger: Trigger::Click, swap: Swap::IntoElement(CONTENT_ID) }
}

pub open spec fn open_tag(tag: Tag, attrs: Seq<Attr>) -> TokenView {
    TokenView::Open { tag, attrs, directive: None }
}

pub open spec fn control_open(d: Directive) -> TokenView {
    TokenView::Open { tag: Tag::Button, attrs: seq![btn_class()], directive: Some(d) }
}

pub open spec fn close_tag(tag: Tag) -> TokenView {
    TokenView::Close { tag }
}

pub open spec fn text(s: Seq<char>) -> TokenView {
    TokenView::Text { text: s }
}

/// The tokens of each fragment.
pub open spec fn fragment_tokens(f: Fragment) -> Seq<TokenView> {
    match f {
        Fragment::Entry => seq![
            open_tag(Tag::Head, seq![]),
            open_tag(Tag::Style, seq![]),
            text(PAGE_STYLE@),
            close_tag(Tag::Style),
            open_tag(Tag::Script, seq![
                Attr { name: "src", value: CLIENT_SCRIPT },
                Attr { name: "integrity", value: CLIENT_INTEGRITY },
                Attr { name: "crossorigin", value: "anonymous" },
            ]),
            close_tag(Tag::Script),
            close_tag(Tag::Head),
            open_tag(Tag::Body, seq![]),
            control_open(start_directive()),
            text(" Lazy Load Image "@),
            close_tag(Tag::Button),
            close_tag(Tag::Body),
        ],
        Fragment::LoadingIndicator => seq![
            TokenView::Open { tag: Tag::Div, attrs: seq![], directive: Some(load_directive()) },
            open_tag(Tag::Button, seq![btn_class()]),
            text("Lazy Loading Image"@),
            close_tag(Tag::Button),
            close_tag(Tag::Div),
        ],
        Fragment::LoadedContent => seq![
            open_tag(Tag::Div, seq![Attr { name: "id", value: CONTENT_ID }]),
            open_tag(Tag::Img, seq![
                Attr { name: "id", value: "myimage" },
                Attr { name: "src", value: "./static/image.png" },
                Attr { name: "width", value: "800" },
            ]),
            open_tag(Tag::Br, seq![]),
            open_tag(Tag::Br, seq![]),
            open_tag(Tag::Text, seq![]),
            text(CONTENT_MARKER@),
            close_tag(Tag::Text),
            open_tag(Tag::Br, seq![]),
            open_tag(Tag::Br, seq![]),
            control_open(reset_directive()),
            text(" Reset "@),
            close_tag(Tag::Button),
            close_tag(Tag::Div),
        ],
        Fragment::ResetEntry => seq![
            control_open(start_directive()),
            text(" Lazy Load Image "@),
            close_tag(Tag::Button),
        ],
    }
}

/// The markup of each fragment.
pub open spec fn fragment_markup(f: Fragment) -> Seq<char> {
    serialize(fragment_tokens(f))
}

fn one_attr(a: Attr) -> (r: Vec<Attr>)
    ensures
        r@ == seq![a],
{
    let mut r = Vec::new();
    r.push(a);
    assert(r@ =~= seq![a]);
    r
}

fn three_attrs(a: Attr, b: Attr, c: Attr) -> (r: Vec<Attr>)
    ensures
        r@ == seq![a, b, c],
{
    let mut r = Vec::new();
    r.push(a);
    r.push(b);
    r.push(c);
    assert(r@ =~= seq![a, b, c]);
    r
}

fn plain(tag: Tag) -> (r: Token)
    ensures
        r@ == open_tag(tag, seq![]),
{
    let attrs: Vec<Attr> = Vec::new();
    assert(attrs@ =~= Seq::<Attr>::empty());
    Token::Open { tag, attrs, directive: None }
}

fn control(d: Directive) -> (r: Token)
    ensures
        r@ == control_open(d),
{
    Token::Open { tag: Tag::Button, attrs: one_attr(Attr { name: "class", value: "btn" }), directive: Some(d) }
}

/// Builds the tokens of a fragment.
pub fn build_tokens(f: Fragment) -> (r: Vec<Token>)
    ensures
        tokens_view(r@) == fragment_tokens(f),
{
    let mut v: Vec<Token> = Vec::new();
    match f {
        Fragment::Entry => {
            v.push(plain(Tag::Head));
            v.push(plain(Tag::Style));
            v.push(Token::Text { text: PAGE_STYLE });
            v.push(Token::Close { tag: Tag::Style });
            let attrs = three_attrs(
                Attr { name: "src", value: CLIENT_SCRIPT },
                Attr { name: "integrity", value: CLIENT_INTEGRITY },
                Attr { name: "crossorigin", value: "anonymous" },
            );
            v.push(Token::Open { tag: Tag::Script, attrs, directive: None });
            v.push(Token::Close { tag: Tag::Script });
            v.push(Token::Close { tag: Tag::Head });
            v.push(plain(Tag::Body));
            v.push(control(Directive {
                target: Fragment::LoadingIndicator,
                trigger: Trigger::Click,
                swap: Swap::ReplaceSelf,
            }));
            v.push(Token::Text { text: " Lazy Load Image " });
            v.push(Token::Close { tag: Tag::Button });
            v.push(Token::Close { tag: Tag::Body });
        },
        Fragment::LoadingIndicator => {
            let none: Vec<Attr> = Vec::new();
            assert(none@ =~= Seq::<Attr>::empty());
            v.push(Token::Open {
                tag: Tag::Div,
                attrs: none,
                directive: Some(Directive {
                    target: Fragment::LoadedContent,
                    trigger: Trigger::Load,
                    swap: Swap::IntoSelf,
                }),
            });
            let attrs = one_attr(Attr { name: "class", value: "btn" });
            v.push(Token::Open { tag: Tag::Button, attrs, directive: None });
            v.push(Token::Text { text: "Lazy Loading Image" });
            v.push(Token::Close { tag: Tag::Button });
            v.push(Token::Close { tag: Tag::Div });
        },
        Fragment::LoadedContent => {
            let id = one_attr(Attr { name: "id", value: CONTENT_ID });
            v.push(Token::Open { tag: Tag::Div, attrs: id, directive: None });
            let attrs = three_attrs(
                Attr { name: "id", value: "myimage" },
                Attr { name: "src", value: "./static/image.png" },
                Attr { name: "width", value: "800" },
            );
            v.push(Token::Open { tag: Tag::Img, attrs, directive: None });
            v.push(plain(Tag::Br));
            v.push(plain(Tag::Br));
            v.push(plain(Tag::Text));
            v.push(Token::Text { text: CONTENT_MARKER });
            v.push(Token::Close { tag: Tag::Text });
            v.push(plain(Tag::Br));
            v.push(plain(Tag::Br));
            v.push(control(Directive {
                target: Fragment::ResetEntry,
                trigger: Trigger::Click,
                swap: Swap::IntoElement(CONTENT_ID),
            }));
            v.push(Token::Text { text: " Reset " });
            v.push(Token::Close { tag: Tag::Button });
            v.push(Token::Close { tag: Tag::Div });
        },
        Fragment::ResetEntry => {
            v.push(control(Directive {
                target: Fragment::LoadingIndicator,
                trigger: Trigger::Click,
                swap: Swap::ReplaceSelf,
            }));
            v.push(Token::Text { text: " Lazy Load Image " });
            v.push(Token::Close { tag: Tag::Button });
        },
    }
    assert(tokens_view(v@) =~= fragment_tokens(f));
    v
}

/// Renders a fragment to its markup.
pub fn render_fragment(f: Fragment) -> (r: String)
    ensures
        r@ == fragment_markup(f),
{
    render(&build_tokens(f))
}

} // verus!
