//! Compact JSON whose members stand in a given order.
use crate::outside;
use crate::outside::json_string_of;
use crate::text;
use crate::text::join_texts;
use vstd::prelude::*;

verus! {

/// A member of an object: its name and its value, which is JSON already.
pub type Member = (Seq<char>, Seq<char>);

/// A compact JSON object.
pub open spec fn record(members: Seq<Member>) -> Seq<char> {
    seq!['{'] + text::join(
        members.map_values(|m: Member| outside::json_string(m.0) + seq![':'] + m.1),
        seq![','],
    ) + seq!['}']
}

/// An optional text in JSON.
pub open spec fn optional_string(o: Option<String>) -> Seq<char> {
    match o {
        Some(s) => outside::json_string(s@),
        None => "null"@,
    }
}

/// Texts as a JSON array.
pub open spec fn strings_json(texts: Seq<Seq<char>>) -> Seq<char> {
    outside::json_array(texts.map_values(|s: Seq<char>| outside::json_string(s)))
}

/// A truth value in JSON.
pub open spec fn boolean(b: bool) -> Seq<char> {
    if b {
        "true"@
    } else {
        "false"@
    }
}

/// A name and its JSON.
pub type Part = (&'static str, String);

pub open spec fn members_of(parts: Seq<Part>) -> Seq<Member> {
    parts.map_values(|p: Part| (p.0@, p.1@))
}

/// A compact JSON object.
pub(crate) fn record_text(parts: &Vec<Part>) -> (r: String)
    ensures
        r@ == record(members_of(parts@)),
{
    let mut members: Vec<String> = Vec::new();
    let mut i: usize = 0;
    while i < parts.len()
        invariant
            i <= parts@.len(),
            members@.len() == i,
            forall|j: int|
                0 <= j < i ==> (#[trigger] members@[j])@ == outside::json_string(parts@[j].0@)
                    + seq![':'] + parts@[j].1@,
        decreases parts.len() - i,
    {
        let mut m = json_string_of(parts[i].0);
        m.push(':');
        let ghost head = m@;
        m.append(parts[i].1.as_str());
        assert(head =~= outside::json_string(parts@[i as int].0@) + seq![':']);
        members.push(m);
        i += 1;
    }
    let mut out = String::new();
    out.push('{');
    out.append(join_texts(&members, ",").as_str());
    out.push('}');
    proof {
        reveal_strlit(",");
        assert(","@ =~= seq![',']);
        assert(text::views(members@) =~= members_of(parts@).map_values(
            |m: Member| outside::json_string(m.0) + seq![':'] + m.1,
        ));
        assert(out@ =~= record(members_of(parts@)));
    }
    out
}

/// A compact JSON array.
pub(crate) fn array_text(items: &Vec<String>) -> (r: String)
    ensures
        r@ == outside::json_array(text::views(items@)),
{
    let mut out = String::new();
    out.push('[');
    out.append(join_texts(items, ",").as_str());
    out.push(']');
    proof {
        reveal_strlit(",");
        assert(","@ =~= seq![',']);
        assert(out@ =~= outside::json_array(text::views(items@)));
    }
    out
}

/// An optional text in JSON.
pub(crate) fn optional_string_text(o: &Option<String>) -> (r: String)
    ensures
        r@ == optional_string(*o),
{
    match o {
        Some(s) => json_string_of(s.as_str()),
        None => "null".to_owned(),
    }
}

/// A truth value in JSON.
pub(crate) fn boolean_text(b: bool) -> (r: String)
    ensures
        r@ == boolean(b),
{
    if b {
        "true".to_owned()
    } else {
        "false".to_owned()
    }
}

/// Texts as a JSON array.
pub(crate) fn strings_text(texts: &Vec<String>) -> (r: String)
    ensures
        r@ == strings_json(text::views(texts@)),
{
    let mut items: Vec<String> = Vec::new();
    let mut i: usize = 0;
    while i < texts.len()
        invariant
            i <= texts@.len(),
            items@.len() == i,
            forall|j: int|
                0 <= j < i ==> (#[trigger] items@[j])@ == outside::json_string(texts@[j]@),
        decreases texts.len() - i,
    {
        items.push(json_string_of(texts[i].as_str()));
        i += 1;
    }
    assert(text::views(items@) =~= text::views(texts@).map_values(
        |s: Seq<char>| outside::json_string(s),
    ));
    array_text(&items)
}

} // verus!
