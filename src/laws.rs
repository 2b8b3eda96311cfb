//! What holds of the fragments as a whole.
use vstd::prelude::*;
use crate::fragment::{
    CLIENT_INTEGRITY, CLIENT_SCRIPT, CONTENT_ID, CONTENT_MARKER, PAGE_STYLE, Fragment, btn_class,
    close_tag, control_open, fragment_markup, fragment_tokens, load_directive, open_tag, path_of,
    reset_directive, start_directive, text,
};
use crate::handlers::{delay_of, lemma_paths_distinct, route_of};
use crate::markup::{
    Attr, Directive, Tag, TokenView, Trigger, directives, lemma_push_tag, lemma_push_token,
    open_after, serialize, well_formed,
};

verus! {

/// Every fragment is non-empty markup in which each element is closed, in order.
pub proof fn lemma_fragment_well_formed(f: Fragment)
    ensures
        well_formed(fragment_tokens(f)),
        fragment_markup(f).len() > 0,
{
    match f {
        Fragment::Entry => lemma_eval_entry(),
        Fragment::LoadingIndicator => lemma_eval_loading(),
        Fragment::LoadedContent => lemma_eval_content(),
        Fragment::ResetEntry => lemma_eval_reset(),
    }
}

/// The entry page holds exactly one control, and it fetches the loading
/// indicator on a click.
pub proof fn lemma_entry_control()
    ensures
        directives(fragment_tokens(Fragment::Entry)) == seq![start_directive()],
        path_of(start_directive().target) == "/loadimg"@,
        start_directive().trigger == Trigger::Click,
{
    lemma_eval_entry();
}

/// The loading indicator holds exactly one directive: it fetches the content
/// as soon as it is attached.
pub proof fn lemma_loading_directive()
    ensures
        directives(fragment_tokens(Fragment::LoadingIndicator)) == seq![load_directive()],
        path_of(load_directive().target) == "/img"@,
        load_directive().trigger == Trigger::Load,
{
    lemma_eval_loading();
}

/// The content holds its marker and one control, which fetches the reset
/// fragment; only the content waits before it is answered.
pub proof fn lemma_content_fragment(f: Fragment)
    ensures
        fragment_tokens(Fragment::LoadedContent).contains(text(CONTENT_MARKER@)),
        directives(fragment_tokens(Fragment::LoadedContent)) == seq![reset_directive()],
        path_of(reset_directive().target) == "/default"@,
        delay_of(Fragment::LoadedContent) == 1000,
        f != Fragment::LoadedContent ==> delay_of(f) == 0,
{
    lemma_eval_content();
    assert(fragment_tokens(Fragment::LoadedContent)[5] == text(CONTENT_MARKER@));
}

/// The reset fragment is the entry page's control, tokens and directive alike,
/// without the page shell.
pub proof fn lemma_reset_matches_entry()
    ensures
        fragment_tokens(Fragment::ResetEntry) == fragment_tokens(Fragment::Entry).subrange(8, 11),
        directives(fragment_tokens(Fragment::ResetEntry)) == directives(
            fragment_tokens(Fragment::Entry),
        ),
        forall|i: int|
            0 <= i < fragment_tokens(Fragment::ResetEntry).len() ==> !(
            #[trigger] fragment_tokens(Fragment::ResetEntry)[i] is Open
                && (fragment_tokens(Fragment::ResetEntry)[i]->Open_tag == Tag::Head
                || fragment_tokens(Fragment::ResetEntry)[i]->Open_tag == Tag::Style
                || fragment_tokens(Fragment::ResetEntry)[i]->Open_tag == Tag::Script
                || fragment_tokens(Fragment::ResetEntry)[i]->Open_tag == Tag::Body)),
{
    lemma_eval_entry();
    lemma_eval_reset();
    assert(fragment_tokens(Fragment::ResetEntry) =~= fragment_tokens(Fragment::Entry).subrange(
        8,
        11,
    ));
}

/// A path selects at most one fragment, and a fragment's markup depends on
/// nothing else: two requests to the same path get the same body.
pub proof fn lemma_same_path_same_body(path: Seq<char>, f: Fragment, g: Fragment)
    requires
        path_of(f) == path,
        path_of(g) == path,
    ensures
        f == g,
        route_of(path) == Some(f),
        fragment_markup(f) == fragment_markup(g),
{
    lemma_paths_distinct(f, g);
    lemma_paths_distinct(f, Fragment::Entry);
    lemma_paths_distinct(f, Fragment::LoadingIndicator);
    lemma_paths_distinct(f, Fragment::LoadedContent);
}

/// A path other than the four selects no fragment; it is left to static files.
pub proof fn lemma_other_paths_unrouted(path: Seq<char>)
    requires
        forall|f: Fragment| path_of(f) != path,
    ensures
        route_of(path) == None::<Fragment>,
{
    assert(path_of(Fragment::Entry) != path);
    assert(path_of(Fragment::LoadingIndicator) != path);
    assert(path_of(Fragment::LoadedContent) != path);
    assert(path_of(Fragment::ResetEntry) != path);
}

/// The open tags and the directives of the entry fragment, token by token.
proof fn lemma_eval_entry()
    ensures
        open_after(fragment_tokens(Fragment::Entry)) == Some(Seq::<Tag>::empty()),
        directives(fragment_tokens(Fragment::Entry)) == seq![start_directive()],
        serialize(fragment_tokens(Fragment::Entry)).len() > 0,
{
    broadcast use lemma_push_token, lemma_push_tag;
    reveal_strlit("</");
    let s0 = Seq::<TokenView>::empty().push(open_tag(Tag::Head, seq![]));
    assert(open_after(s0) == Some(Seq::<Tag>::empty().push(Tag::Head)));
    assert(directives(s0) == Seq::<Directive>::empty());
    let s1 = s0.push(open_tag(Tag::Style, seq![]));
    assert(open_after(s1) == Some(Seq::<Tag>::empty().push(Tag::Head).push(Tag::Style)));
    assert(directives(s1) == Seq::<Directive>::empty());
    let s2 = s1.push(text(PAGE_STYLE@));
    assert(open_after(s2) == Some(Seq::<Tag>::empty().push(Tag::Head).push(Tag::Style)));
    assert(directives(s2) == Seq::<Directive>::empty());
    let s3 = s2.push(close_tag(Tag::Style));
    assert(open_after(s3) == Some(Seq::<Tag>::empty().push(Tag::Head)));
    assert(directives(s3) == Seq::<Directive>::empty());
    let s4 = s3.push(open_tag(Tag::Script, seq![Attr { name: "src", value: CLIENT_SCRIPT }, Attr { name: "integrity", value: CLIENT_INTEGRITY }, Attr { name: "crossorigin", value: "anonymous" }]));
    assert(open_after(s4) == Some(Seq::<Tag>::empty().push(Tag::Head).push(Tag::Script)));
    assert(directives(s4) == Seq::<Directive>::empty());
    let s5 = s4.push(close_tag(Tag::Script));
    assert(open_after(s5) == Some(Seq::<Tag>::empty().push(Tag::Head)));
    assert(directives(s5) == Seq::<Directive>::empty());
    let s6 = s5.push(close_tag(Tag::Head));
    assert(open_after(s6) == Some(Seq::<Tag>::empty()));
    assert(directives(s6) == Seq::<Directive>::empty());
    let s7 = s6.push(open_tag(Tag::Body, seq![]));
    assert(open_after(s7) == Some(Seq::<Tag>::empty().push(Tag::Body)));
    assert(directives(s7) == Seq::<Directive>::empty());
    let s8 = s7.push(control_open(start_directive()));
    assert(open_after(s8) == Some(Seq::<Tag>::empty().push(Tag::Body).push(Tag::Button)));
    assert(directives(s8) == Seq::<Directive>::empty().push(start_directive()));
    let s9 = s8.push(text(" Lazy Load Image "@));
    assert(open_after(s9) == Some(Seq::<Tag>::empty().push(Tag::Body).push(Tag::Button)));
    assert(directives(s9) == Seq::<Directive>::empty().push(start_directive()));
    let s10 = s9.push(close_tag(Tag::Button));
    assert(open_after(s10) == Some(Seq::<Tag>::empty().push(Tag::Body)));
    assert(directives(s10) == Seq::<Directive>::empty().push(start_directive()));
    let s11 = s10.push(close_tag(Tag::Body));
    assert(open_after(s11) == Some(Seq::<Tag>::empty()));
    assert(directives(s11) == Seq::<Directive>::empty().push(start_directive()));
    assert(serialize(s11).len() > 0);
    assert(fragment_tokens(Fragment::Entry) == s11);
}

/// The open tags and the directives of the loading fragment, token by token.
proof fn lemma_eval_loading()
    ensures
        open_after(fragment_tokens(Fragment::LoadingIndicator)) == Some(Seq::<Tag>::empty()),
        directives(fragment_tokens(Fragment::LoadingIndicator)) == seq![load_directive()],
        serialize(fragment_tokens(Fragment::LoadingIndicator)).len() > 0,
{
    broadcast use lemma_push_token, lemma_push_tag;
    reveal_strlit("</");
    let s0 = Seq::<TokenView>::empty().push(TokenView::Open { tag: Tag::Div, attrs: seq![], directive: Some(load_directive()) });
    assert(open_after(s0) == Some(Seq::<Tag>::empty().push(Tag::Div)));
    assert(directives(s0) == Seq::<Directive>::empty().push(load_directive()));
    let s1 = s0.push(open_tag(Tag::Button, seq![btn_class()]));
    assert(open_after(s1) == Some(Seq::<Tag>::empty().push(Tag::Div).push(Tag::Button)));
    assert(directives(s1) == Seq::<Directive>::empty().push(load_directive()));
    let s2 = s1.push(text("Lazy Loading Image"@));
    assert(open_after(s2) == Some(Seq::<Tag>::empty().push(Tag::Div).push(Tag::Button)));
    assert(directives(s2) == Seq::<Directive>::empty().push(load_directive()));
    let s3 = s2.push(close_tag(Tag::Button));
    assert(open_after(s3) == Some(Seq::<Tag>::empty().push(Tag::Div)));
    assert(directives(s3) == Seq::<Directive>::empty().push(load_directive()));
    let s4 = s3.push(close_tag(Tag::Div));
    assert(open_after(s4) == Some(Seq::<Tag>::empty()));
    assert(directives(s4) == Seq::<Directive>::empty().push(load_directive()));
    assert(serialize(s4).len() > 0);
    assert(fragment_tokens(Fragment::LoadingIndicator) == s4);
}

/// The open tags and the directives of the content fragment, token by token.
proof fn lemma_eval_content()
    ensures
        open_after(fragment_tokens(Fragment::LoadedContent)) == Some(Seq::<Tag>::empty()),
        directives(fragment_tokens(Fragment::LoadedContent)) == seq![reset_directive()],
        serialize(fragment_tokens(Fragment::LoadedContent)).len() > 0,
{
    broadcast use lemma_push_token, lemma_push_tag;
    reveal_strlit("</");
    let s0 = Seq::<TokenView>::empty().push(open_tag(Tag::Div, seq![Attr { name: "id", value: CONTENT_ID }]));
    assert(open_after(s0) == Some(Seq::<Tag>::empty().push(Tag::Div)));
    assert(directives(s0) == Seq::<Directive>::empty());
    let s1 = s0.push(open_tag(Tag::Img, seq![Attr { name: "id", value: "myimage" }, Attr { name: "src", value: "./static/image.png" }, Attr { name: "width", value: "800" }]));
    assert(open_after(s1) == Some(Seq::<Tag>::empty().push(Tag::Div)));
    assert(directives(s1) == Seq::<Directive>::empty());
    let s2 = s1.push(open_tag(Tag::Br, seq![]));
    assert(open_after(s2) == Some(Seq::<Tag>::empty().push(Tag::Div)));
    assert(directives(s2) == Seq::<Directive>::empty());
    let s3 = s2.push(open_tag(Tag::Br, seq![]));
    assert(open_after(s3) == Some(Seq::<Tag>::empty().push(Tag::Div)));
    assert(directives(s3) == Seq::<Directive>::empty());
    let s4 = s3.push(open_tag(Tag::Text, seq![]));
    assert(open_after(s4) == Some(Seq::<Tag>::empty().push(Tag::Div).push(Tag::Text)));
    assert(directives(s4) == Seq::<Directive>::empty());
    let s5 = s4.push(text(CONTENT_MARKER@));
    assert(open_after(s5) == Some(Seq::<Tag>::empty().push(Tag::Div).push(Tag::Text)));
    assert(directives(s5) == Seq::<Directive>::empty());
    let s6 = s5.push(close_tag(Tag::Text));
    assert(open_after(s6) == Some(Seq::<Tag>::empty().push(Tag::Div)));
    assert(directives(s6) == Seq::<Directive>::empty());
    let s7 = s6.push(open_tag(Tag::Br, seq![]));
    assert(open_after(s7) == Some(Seq::<Tag>::empty().push(Tag::Div)));
    assert(directives(s7) == Seq::<Directive>::empty());
    let s8 = s7.push(open_tag(Tag::Br, seq![]));
    assert(open_after(s8) == Some(Seq::<Tag>::empty().push(Tag::Div)));
    assert(directives(s8) == Seq::<Directive>::empty());
    let s9 = s8.push(control_open(reset_directive()));
    assert(open_after(s9) == Some(Seq::<Tag>::empty().push(Tag::Div).push(Tag::Button)));
    assert(directives(s9) == Seq::<Directive>::empty().push(reset_directive()));
    let s10 = s9.push(text(" Reset "@));
    assert(open_after(s10) == Some(Seq::<Tag>::empty().push(Tag::Div).push(Tag::Button)));
    assert(directives(s10) == Seq::<Directive>::empty().push(reset_directive()));
    let s11 = s10.push(close_tag(Tag::Button));
    assert(open_after(s11) == Some(Seq::<Tag>::empty().push(Tag::Div)));
    assert(directives(s11) == Seq::<Directive>::empty().push(reset_directive()));
    let s12 = s11.push(close_tag(Tag::Div));
    assert(open_after(s12) == Some(Seq::<Tag>::empty()));
    assert(directives(s12) == Seq::<Directive>::empty().push(reset_directive()));
    assert(serialize(s12).len() > 0);
    assert(fragment_tokens(Fragment::LoadedContent) == s12);
}

/// The open tags and the directives of the reset fragment, token by token.
proof fn lemma_eval_reset()
    ensures
        open_after(fragment_tokens(Fragment::ResetEntry)) == Some(Seq::<Tag>::empty()),
        directives(fragment_tokens(Fragment::ResetEntry)) == seq![start_directive()],
        serialize(fragment_tokens(Fragment::ResetEntry)).len() > 0,
{
    broadcast use lemma_push_token, lemma_push_tag;
    reveal_strlit("</");
    let s0 = Seq::<TokenView>::empty().push(control_open(start_directive()));
    assert(open_after(s0) == Some(Seq::<Tag>::empty().push(Tag::Button)));
    assert(directives(s0) == Seq::<Directive>::empty().push(start_directive()));
    let s1 = s0.push(text(" Lazy Load Image "@));
    assert(open_after(s1) == Some(Seq::<Tag>::empty().push(Tag::Button)));
    assert(directives(s1) == Seq::<Directive>::empty().push(start_directive()));
    let s2 = s1.push(close_tag(Tag::Button));
    assert(open_after(s2) == Some(Seq::<Tag>::empty()));
    assert(directives(s2) == Seq::<Directive>::empty().push(start_directive()));
    assert(serialize(s2).len() > 0);
    assert(fragment_tokens(Fragment::ResetEntry) == s2);
}
} // verus!
