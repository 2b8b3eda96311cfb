//! A small markup model: a fragment is a sequence of tokens (opening tags,
//! closing tags and text), rendered to HTML by plain concatenation.
use vstd::prelude::*;
use vstd::string::*;
use crate::fragment::{Fragment, path_of, path_str};

verus! {

/// The elements that fragments are made of.
#[derive(Clone, Copy, Debug, PartialEq, Eq, Structural)]
pub enum Tag {
    Head,
    Style,
    Script,
    Body,
    Button,
    Div,
    Img,
    Br,
    Text,
}

/// Elements that take no content and no closing tag.
pub open spec fn is_void(t: Tag) -> bool {
    t == Tag::Img || t == Tag::Br
}

pub open spec fn tag_name(t: Tag) -> Seq<char> {
    match t {
        Tag::Head => "head"@,
        Tag::Style => "style"@,
        Tag::Script => "script"@,
        Tag::Body => "body"@,
        Tag::Button => "button"@,
        Tag::Div => "div"@,
        Tag::Img => "img"@,
        Tag::Br => "br"@,
        Tag::Text => "text"@,
    }
}

pub fn tag_str(t: Tag) -> (r: &'static str)
    ensures
        r@ == tag_name(t),
{
    match t {
        Tag::Head => "head",
        Tag::Style => "style",
        Tag::Script => "script",
        Tag::Body => "body",
        Tag::Button => "button",
        Tag::Div => "div",
        Tag::Img => "img",
        Tag::Br => "br",
        Tag::Text => "text",
    }
}

/// When the client issues the follow-up request.
#[derive(Clone, Copy, Debug, PartialEq, Eq, Structural)]
pub enum Trigger {
    /// When the user clicks the element.
    Click,
    /// As soon as the element is attached to the page.
    Load,
}

/// Where the client puts the fragment that comes back.
#[derive(Clone, Copy, Debug)]
pub enum Swap {
    /// It replaces the element that issued the request.
    ReplaceSelf,
    /// It becomes the content of the element that issued the request.
    IntoSelf,
    /// It becomes the content of the element with this id.
    IntoElement(&'static str),
}

/// A hypermedia directive: request `target`'s fragment on `trigger`, swap it in by `swap`.
#[derive(Clone, Copy, Debug)]
pub struct Directive {
    pub target: Fragment,
    pub trigger: Trigger,
    pub swap: Swap,
}

/// A plain attribute `name="value"`.
#[derive(Clone, Copy, Debug)]
pub struct Attr {
    pub name: &'static str,
    pub value: &'static str,
}

/// One piece of a fragment.
#[derive(Debug)]
pub enum Token {
    Open { tag: Tag, attrs: Vec<Attr>, directive: Option<Directive> },
    Close { tag: Tag },
    Text { text: &'static str },
}

/// What a token means: its attributes as a sequence.
pub enum TokenView {
    Open { tag: Tag, attrs: Seq<Attr>, directive: Option<Directive> },
    Close { tag: Tag },
    Text { text: Seq<char> },
}

impl View for Token {
    type V = TokenView;

    open spec fn view(&self) -> TokenView {
        match self {
            Token::Open { tag, attrs, directive } => TokenView::Open {
                tag: *tag,
                attrs: attrs@,
                directive: *directive,
            },
            Token::Close { tag } => TokenView::Close { tag: *tag },
            Token::Text { text } => TokenView::Text { text: text@ },
        }
    }
}

pub open spec fn tokens_view(ts: Seq<Token>) -> Seq<TokenView> {
    ts.map_values(|t: Token| t@)
}

pub open spec fn quoted(name: Seq<char>, value: Seq<char>) -> Seq<char> {
    " "@ + name + "=\""@ + value + "\""@
}

pub open spec fn attrs_text(attrs: Seq<Attr>) -> Seq<char>
    decreases attrs.len(),
{
    if attrs.len() == 0 {
        Seq::empty()
    } else {
        attrs_text(attrs.drop_last()) + quoted(attrs.last().name@, attrs.last().value@)
    }
}

pub open spec fn trigger_name(t: Trigger) -> Seq<char> {
    match t {
        Trigger::Click => "click"@,
        Trigger::Load => "load"@,
    }
}

pub open spec fn swap_text(s: Swap) -> Seq<char> {
    match s {
        Swap::ReplaceSelf => quoted("hx-swap"@, "outerHTML"@),
        Swap::IntoSelf => Seq::empty(),
        Swap::IntoElement(id) => quoted("hx-target"@, "#"@ + id@),
    }
}

pub open spec fn directive_text(d: Option<Directive>) -> Seq<char> {
    match d {
        None => Seq::empty(),
        Some(d) => quoted("hx-get"@, path_of(d.target)) + quoted("hx-trigger"@, trigger_name(d.trigger))
            + swap_text(d.swap),
    }
}

pub open spec fn token_text(t: TokenView) -> Seq<char> {
    match t {
        TokenView::Open { tag, attrs, directive } => "<"@ + tag_name(tag) + attrs_text(attrs)
            + directive_text(directive) + if is_void(tag) {
            "/>"@
        } else {
            ">"@
        },
        TokenView::Close { tag } => "</"@ + tag_name(tag) + ">"@,
        TokenView::Text { text } => text,
    }
}

/// The markup of a token sequence: the tokens' texts one after the other.
pub open spec fn serialize(ts: Seq<TokenView>) -> Seq<char>
    decreases ts.len(),
{
    if ts.len() == 0 {
        Seq::empty()
    } else {
        serialize(ts.drop_last()) + token_text(ts.last())
    }
}

/// The tags left open after `ts`, innermost last, or `None` where a closing
/// tag does not match the innermost open element.
pub open spec fn open_after(ts: Seq<TokenView>) -> Option<Seq<Tag>>
    decreases ts.len(),
{
    if ts.len() == 0 {
        Some(Seq::empty())
    } else {
        open_step(open_after(ts.drop_last()), ts.last())
    }
}

/// Every element is closed, innermost first, and no void element is closed.
pub open spec fn well_formed(ts: Seq<TokenView>) -> bool {
    open_after(ts) == Some(Seq::<Tag>::empty())
}

/// The directives of a token sequence, in order.
pub open spec fn directives(ts: Seq<TokenView>) -> Seq<Directive>
    decreases ts.len(),
{
    if ts.len() == 0 {
        Seq::empty()
    } else {
        let rest = directives(ts.drop_last());
        match ts.last() {
            TokenView::Open { directive: Some(d), .. } => rest.push(d),
            _ => rest,
        }
    }
}

/// The open tags after one more token.
pub open spec fn open_step(open: Option<Seq<Tag>>, t: TokenView) -> Option<Seq<Tag>> {
    match open {
        None => None,
        Some(stack) => match t {
            TokenView::Open { tag, .. } => if is_void(tag) {
                Some(stack)
            } else {
                Some(stack.push(tag))
            },
            TokenView::Close { tag } => if stack.len() > 0 && stack.last() == tag {
                Some(stack.drop_last())
            } else {
                None
            },
            TokenView::Text { .. } => Some(stack),
        },
    }
}

pub broadcast proof fn lemma_push_token(ts: Seq<TokenView>, t: TokenView)
    ensures
        open_after(#[trigger] ts.push(t)) == open_step(open_after(ts), t),
        directives(ts.push(t)) == match t {
            TokenView::Open { directive: Some(d), .. } => directives(ts).push(d),
            _ => directives(ts),
        },
        serialize(ts.push(t)) == serialize(ts) + token_text(t),
{
    assert(ts.push(t).drop_last() =~= ts);
}

pub broadcast proof fn lemma_push_tag(s: Seq<Tag>, t: Tag)
    ensures
        (#[trigger] s.push(t)).drop_last() == s,
{
    assert(s.push(t).drop_last() =~= s);
}

fn append_quoted(out: &mut String, name: &str, value: &str)
    ensures
        final(out)@ == old(out)@ + quoted(name@, value@),
{
    out.append(" ");
    out.append(name);
    out.append("=\"");
    out.append(value);
    out.append("\"");
    assert(final(out)@ =~= old(out)@ + quoted(name@, value@));
}

fn append_directive(out: &mut String, d: Option<Directive>)
    ensures
        final(out)@ == old(out)@ + directive_text(d),
{
    match d {
        None => {
            assert(out@ =~= old(out)@ + directive_text(d));
        },
        Some(d) => {
            let ghost start = out@;
            append_quoted(out, "hx-get", path_str(d.target));
            let trigger = match d.trigger {
                Trigger::Click => "click",
                Trigger::Load => "load",
            };
            append_quoted(out, "hx-trigger", trigger);
            let ghost mid = out@;
            match d.swap {
                Swap::ReplaceSelf => append_quoted(out, "hx-swap", "outerHTML"),
                Swap::IntoSelf => {},
                Swap::IntoElement(id) => {
                    let mut sel = String::from_str("#");
                    sel.append(id);
                    append_quoted(out, "hx-target", sel.as_str());
                },
            }
            assert(out@ =~= mid + swap_text(d.swap));
            assert(out@ =~= start + directive_text(Some(d)));
        },
    }
}

fn append_token(out: &mut String, t: &Token)
    ensures
        final(out)@ == old(out)@ + token_text(t@),
{
    match t {
        Token::Open { tag, attrs, directive } => {
            out.append("<");
            out.append(tag_str(*tag));
            let ghost head = out@;
            let mut i: usize = 0;
            while i < attrs.len()
                invariant
                    i <= attrs@.len(),
                    out@ == head + attrs_text(attrs@.take(i as int)),
                decreases attrs@.len() - i,
            {
                let ghost before = out@;
                append_quoted(out, attrs[i].name, attrs[i].value);
                assert(attrs@.take(i + 1).drop_last() =~= attrs@.take(i as int));
                assert(out@ =~= head + attrs_text(attrs@.take(i + 1)));
                i = i + 1;
            }
            assert(attrs@.take(i as int) =~= attrs@);
            append_directive(out, *directive);
            match tag {
                Tag::Img | Tag::Br => out.append("/>"),
                _ => out.append(">"),
            }
            assert(out@ =~= old(out)@ + token_text(t@));
        },
        Token::Close { tag } => {
            out.append("</");
            out.append(tag_str(*tag));
            out.append(">");
            assert(out@ =~= old(out)@ + token_text(t@));
        },
        Token::Text { text } => {
            out.append(text);
        },
    }
}

/// Renders a token sequence to its markup.
pub fn render(ts: &Vec<Token>) -> (r: String)
    ensures
        r@ == serialize(tokens_view(ts@)),
{
    let mut out = String::new();
    let mut i: usize = 0;
    while i < ts.len()
        invariant
            i <= ts@.len(),
            out@ == serialize(tokens_view(ts@.take(i as int))),
        decreases ts@.len() - i,
    {
        append_token(&mut out, &ts[i]);
        assert(tokens_view(ts@.take(i + 1)).drop_last() =~= tokens_view(ts@.take(i as int)));
        i = i + 1;
    }
    assert(ts@.take(i as int) =~= ts@);
    out
}

} // verus!
