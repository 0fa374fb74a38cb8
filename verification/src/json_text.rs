//! The text of JSON documents.
use vstd::prelude::*;
use crate::text::{concat3, join, join_texts, push_text, texts};
use crate::value::{group_value_views, jsons, members, Json, JsonView};

verus! {

broadcast use group_value_views;

/// A JSON string as it is written: in quotes, with its escapes.
pub uninterp spec fn json_quoted(s: Seq<char>) -> Seq<char>;

/// `serde_json::Value::to_string` on a string: the result depends on the
/// string alone. Which characters it escapes, and how, is left unsaid.
#[verifier::external_body]
fn quote_json(s: &str) -> (r: String)
    ensures
        r@ == json_quoted(s@),
{
    serde_json::Value::String(s.to_owned()).to_string()
}

/// The text of a document, with `comma` between its parts and `colon` between
/// the name of a member and its value.
pub open spec fn laid_out(j: JsonView, comma: Seq<char>, colon: Seq<char>) -> Seq<char>
    decreases j,
{
    match j {
        JsonView::Null => "null"@,
        JsonView::Bool(b) => if b {
            "true"@
        } else {
            "false"@
        },
        JsonView::Number(t) => t,
        JsonView::Str(s) => json_quoted(s),
        JsonView::Array(items) => "["@ + join(items_laid_out(items, comma, colon), comma) + "]"@,
        JsonView::Object(m) => "{"@ + join(members_laid_out(m, comma, colon), comma) + "}"@,
    }
}

/// The text of each document.
pub open spec fn items_laid_out(items: Seq<JsonView>, comma: Seq<char>, colon: Seq<char>) -> Seq<
    Seq<char>,
>
    decreases items,
{
    if items.len() == 0 {
        Seq::empty()
    } else {
        items_laid_out(items.drop_last(), comma, colon).push(laid_out(items.last(), comma, colon))
    }
}

/// The text of each member: its name, a colon, and its value.
pub open spec fn members_laid_out(
    m: Seq<(Seq<char>, JsonView)>,
    comma: Seq<char>,
    colon: Seq<char>,
) -> Seq<Seq<char>>
    decreases m,
{
    if m.len() == 0 {
        Seq::empty()
    } else {
        members_laid_out(m.drop_last(), comma, colon).push(
            json_quoted(m.last().0) + colon + laid_out(m.last().1, comma, colon),
        )
    }
}

/// The text of a document without any white space between its parts.
pub open spec fn compact(j: JsonView) -> Seq<char> {
    laid_out(j, ","@, ":"@)
}

/// The text of a document as `jsonb` is written: with a space after each comma
/// and colon.
pub open spec fn spaced(j: JsonView) -> Seq<char> {
    laid_out(j, ", "@, ": "@)
}

/// The text of a document without any white space between its parts.
pub fn compact_text(j: &Json) -> (r: String)
    ensures
        r@ == compact(j@),
{
    lay_out(j, ",", ":")
}

/// The text of a document as `jsonb` is written.
pub fn spaced_text(j: &Json) -> (r: String)
    ensures
        r@ == spaced(j@),
{
    lay_out(j, ", ", ": ")
}

fn lay_out(j: &Json, comma: &str, colon: &str) -> (r: String)
    ensures
        r@ == laid_out(j@, comma@, colon@),
    decreases j,
{
    match j {
        Json::Null => "null".to_owned(),
        Json::Bool(b) => {
            if *b {
                "true".to_owned()
            } else {
                "false".to_owned()
            }
        },
        Json::Number(t) => t.clone(),
        Json::Str(s) => quote_json(s.as_str()),
        Json::Array(items) => {
            let parts = item_texts(items, comma, colon);
            let inner = join_texts(&parts, comma);
            concat3("[", inner.as_str(), "]")
        },
        Json::Object(m) => {
            let parts = member_texts(m, comma, colon);
            let inner = join_texts(&parts, comma);
            concat3("{", inner.as_str(), "}")
        },
    }
}

fn item_texts(items: &Vec<Json>, comma: &str, colon: &str) -> (r: Vec<String>)
    ensures
        texts(r@) == items_laid_out(jsons(items@), comma@, colon@),
    decreases items,
{
    let ghost all = jsons(items@);
    let mut out: Vec<String> = Vec::new();
    let mut i: usize = 0;
    assert(all.take(0) =~= Seq::<JsonView>::empty());
    assert(texts(out@) =~= Seq::<Seq<char>>::empty());
    while i < items.len()
        invariant
            i <= items@.len(),
            all == jsons(items@),
            texts(out@) == items_laid_out(all.take(i as int), comma@, colon@),
        decreases items@.len() - i,
    {
        assert(decreases_to!(items@ => items@[i as int]));
        assert(all.take(i + 1).drop_last() =~= all.take(i as int));
        assert(all.take(i + 1).last() == items@[i as int]@);
        let ghost before = out@;
        let text = lay_out(&items[i], comma, colon);
        out.push(text);
        assert(texts(out@) =~= texts(before).push(text@));
        i = i + 1;
    }
    assert(all.take(i as int) =~= all);
    out
}

fn member_texts(m: &Vec<(String, Json)>, comma: &str, colon: &str) -> (r: Vec<String>)
    ensures
        texts(r@) == members_laid_out(members(m@), comma@, colon@),
    decreases m,
{
    let ghost all = members(m@);
    let mut out: Vec<String> = Vec::new();
    let mut i: usize = 0;
    assert(all.take(0) =~= Seq::<(Seq<char>, JsonView)>::empty());
    assert(texts(out@) =~= Seq::<Seq<char>>::empty());
    while i < m.len()
        invariant
            i <= m@.len(),
            all == members(m@),
            texts(out@) == members_laid_out(all.take(i as int), comma@, colon@),
        decreases m@.len() - i,
    {
        assert(decreases_to!(m@ => m@[i as int]));
        assert(all.take(i + 1).drop_last() =~= all.take(i as int));
        assert(all.take(i + 1).last() == (m@[i as int].0@, m@[i as int].1@));
        let ghost before = out@;
        let mut text = quote_json(m[i].0.as_str());
        push_text(&mut text, colon);
        let value = lay_out(&m[i].1, comma, colon);
        push_text(&mut text, value.as_str());
        out.push(text);
        assert(texts(out@) =~= texts(before).push(text@));
        i = i + 1;
    }
    assert(all.take(i as int) =~= all);
    out
}

} // verus!
