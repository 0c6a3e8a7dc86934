//! JSON: what is written under a name is read back under it.

use vstd::prelude::*;

use crate::json::{bytes_in, texts_in, value_named, Json, JsonView};

verus! {

/// The value under a name is that of the first pair with the name.
pub proof fn law_first_of_a_name(pairs: Seq<(Seq<char>, JsonView)>, name: Seq<char>, i: int)
    requires
        0 <= i < pairs.len(),
        pairs[i].0 == name,
        forall|k: int| 0 <= k < i ==> (#[trigger] pairs[k]).0 != name,
    ensures
        value_named(pairs, name) == Some(pairs[i].1),
    decreases i,
{
    if i > 0 {
        assert(pairs[0].0 != name);
        let rest = pairs.drop_first();
        assert forall|k: int| 0 <= k < i - 1 implies (#[trigger] rest[k]).0 != name by {
            assert(rest[k] == pairs[k + 1]);
        }
        law_first_of_a_name(rest, name, i - 1);
    }
}

/// Where no pair has the name there is no value.
pub proof fn law_no_such_name(pairs: Seq<(Seq<char>, JsonView)>, name: Seq<char>)
    requires
        forall|k: int| 0 <= k < pairs.len() ==> (#[trigger] pairs[k]).0 != name,
    ensures
        value_named(pairs, name) is None,
    decreases pairs.len(),
{
    if pairs.len() > 0 {
        assert(pairs[0].0 != name);
        let rest = pairs.drop_first();
        assert forall|k: int| 0 <= k < rest.len() implies (#[trigger] rest[k]).0 != name by {
            assert(rest[k] == pairs[k + 1]);
        }
        law_no_such_name(rest, name);
    }
}

/// Reading an object finds the value of the first pair with the name, as it is there.
pub proof fn law_get_finds(pairs: Vec<(String, Json)>, name: &str, i: int, r: Option<&Json>)
    requires
        call_ensures(Json::get, (&Json::Object(pairs), name), r),
        0 <= i < pairs@.len(),
        pairs@[i].0@ == name@,
        forall|k: int| 0 <= k < i ==> (#[trigger] pairs@[k]).0@ != name@,
    ensures
        r is Some,
        r->Some_0@ == pairs@[i].1@,
{
    let all = Json::Object(pairs)@->Object_0;
    assert(all[i] == (pairs@[i].0@, pairs@[i].1@));
    assert forall|k: int| 0 <= k < i implies (#[trigger] all[k]).0 != name@ by {
        assert(all[k].0 == pairs@[k].0@);
    }
    law_first_of_a_name(all, name@, i);
}

/// Reading an object that has no pair with the name finds nothing, and neither does reading
/// what is no object.
pub proof fn law_get_misses(value: Json, name: &str, r: Option<&Json>)
    requires
        call_ensures(Json::get, (&value, name), r),
        match value {
            Json::Object(pairs) => forall|k: int|
                0 <= k < pairs@.len() ==> (#[trigger] pairs@[k]).0@ != name@,
            _ => true,
        },
    ensures
        r is None,
{
    if let Json::Object(pairs) = value {
        let all = value@->Object_0;
        assert forall|k: int| 0 <= k < all.len() implies (#[trigger] all[k]).0 != name@ by {
            assert(all[k].0 == pairs@[k].0@);
        }
        law_no_such_name(all, name@);
    }
}

/// What is written under a new name is read back under it, and what is under the other names
/// stays.
pub proof fn law_written_is_read(
    pairs: Seq<(Seq<char>, JsonView)>,
    name: Seq<char>,
    value: JsonView,
    other: Seq<char>,
)
    ensures
        JsonView::Object(pairs).field(name) is None ==> JsonView::Object(pairs).with(
            name,
            value,
        ).field(name) == Some(value),
        other != name ==> JsonView::Object(pairs).with(name, value).field(other)
            == JsonView::Object(pairs).field(other),
    decreases pairs.len(),
{
    let grown = pairs.push((name, value));
    if pairs.len() == 0 {
        assert(grown.drop_first() =~= pairs);
    } else {
        let rest = pairs.drop_first();
        assert(grown.drop_first() =~= rest.push((name, value)));
        law_written_is_read(rest, name, value, other);
        assert(value_named(grown, name) == (if pairs[0].0 == name {
            Some(pairs[0].1)
        } else {
            value_named(rest.push((name, value)), name)
        }));
        assert(value_named(grown, other) == (if pairs[0].0 == other {
            Some(pairs[0].1)
        } else {
            value_named(rest.push((name, value)), other)
        }));
    }
}

/// The value under the name of the pair at a place, where no pair before it has the name.
pub proof fn lemma_at(value: JsonView, i: int)
    requires
        value is Object,
        0 <= i < value->Object_0.len(),
        forall|k: int|
            0 <= k < i ==> (#[trigger] value->Object_0[k]).0 != value->Object_0[i].0,
    ensures
        value.field(value->Object_0[i].0) == Some(value->Object_0[i].1),
{
    law_first_of_a_name(value->Object_0, value->Object_0[i].0, i);
}

/// The strings of an array come out in order: one more string at its end is one more at the
/// end of what comes out, and anything else changes nothing.
pub proof fn law_texts_in_order(items: Seq<JsonView>, item: JsonView)
    ensures
        texts_in(Seq::empty()) == Seq::<Seq<char>>::empty(),
        item is Text ==> texts_in(items.push(item)) == texts_in(items).push(item->Text_0),
        !(item is Text) ==> texts_in(items.push(item)) == texts_in(items),
{
    assert(items.push(item).drop_last() =~= items);
}

/// The bytes of an array come out in order: an integer below 256 at its end is that byte at
/// the end of what comes out, and what is no number changes nothing.
pub proof fn law_bytes_in_order(items: Seq<JsonView>, item: JsonView, byte: u8)
    ensures
        bytes_in(Seq::empty()) == Seq::<u8>::empty(),
        item is Number && item->exact == Some(byte as u64) ==> bytes_in(items.push(item))
            == bytes_in(items).push(byte),
        item is Number && item->exact is Some ==> bytes_in(items.push(item)) == bytes_in(
            items,
        ).push((item->exact->Some_0 % 256) as u8),
        item is Number && item->exact is None ==> bytes_in(items.push(item)) == bytes_in(items),
        !(item is Number) ==> bytes_in(items.push(item)) == bytes_in(items),
{
    assert(items.push(item).drop_last() =~= items);
}

/// An array of bytes comes out as it is.
pub proof fn law_byte_arrays(items: Seq<JsonView>, bytes: Seq<u8>)
    requires
        items.len() == bytes.len(),
        forall|i: int|
            0 <= i < items.len() ==> (#[trigger] items[i]) is Number && items[i]->exact == Some(
                bytes[i] as u64,
            ),
    ensures
        bytes_in(items) == bytes,
    decreases items.len(),
{
    if items.len() == 0 {
        assert(bytes =~= Seq::<u8>::empty());
    } else {
        law_byte_arrays(items.drop_last(), bytes.drop_last());
        assert(items.last() is Number && items.last()->exact == Some(bytes.last() as u64));
        assert(bytes =~= bytes.drop_last().push(bytes.last()));
    }
}

/// An array of strings comes out as it is.
pub proof fn law_text_arrays(items: Seq<JsonView>, texts: Seq<Seq<char>>)
    requires
        items.len() == texts.len(),
        forall|i: int| 0 <= i < items.len() ==> #[trigger] items[i] == JsonView::Text(texts[i]),
    ensures
        texts_in(items) == texts,
    decreases items.len(),
{
    if items.len() == 0 {
        assert(texts =~= Seq::<Seq<char>>::empty());
    } else {
        law_text_arrays(items.drop_last(), texts.drop_last());
        assert(items.last() == JsonView::Text(texts.last()));
        assert(texts =~= texts.drop_last().push(texts.last()));
    }
}

/// What is read as an integer, a string or a cut number is what the value under the name is.
pub proof fn law_typed_reads(
    value: &Json,
    name: &str,
    found: Option<&Json>,
    number: Option<u64>,
    whole: Option<u64>,
    text: Option<&str>,
    or_empty: String,
)
    requires
        call_ensures(Json::get, (value, name), found),
        call_ensures(Json::get_u64, (value, name), number),
        call_ensures(Json::get_whole, (value, name), whole),
        call_ensures(Json::get_text, (value, name), text),
        call_ensures(Json::text_or_empty, (value, name), or_empty),
    ensures
        number == (match found {
            Some(Json::Number { exact, whole: _ }) => *exact,
            _ => None,
        }),
        whole == (match found {
            Some(Json::Number { exact: _, whole: w }) => Some(*w),
            _ => None,
        }),
        match found {
            Some(Json::Text(s)) => text is Some && text->Some_0@ == s@ && or_empty@ == s@,
            _ => text is None && or_empty@.len() == 0,
        },
{
    if found is Some {
        let v = found->Some_0;
        assert(v@ == v.tree());
    }
}

/// A field with an array of strings, or of bytes, is read as it is; without an array under the
/// name there is nothing.
pub proof fn law_array_fields(
    value: &Json,
    name: &str,
    texts: Vec<String>,
    bytes: Vec<u8>,
    i: int,
)
    requires
        call_ensures(Json::get_texts, (value, name), texts),
        call_ensures(Json::get_bytes, (value, name), bytes),
    ensures
        match value@.list_field(name@) {
            Some(items) => {
                &&& (forall|k: int| 0 <= k < items.len() ==> #[trigger] items[k] is Text) ==> {
                    &&& texts@.len() == items.len()
                    &&& 0 <= i < items.len() ==> items[i] == JsonView::Text(texts@[i]@)
                }
                &&& (forall|k: int|
                    0 <= k < items.len() ==> (#[trigger] items[k]) is Number && items[k]->exact
                        is Some && items[k]->exact->Some_0 < 256) ==> {
                    &&& bytes@.len() == items.len()
                    &&& 0 <= i < items.len() ==> items[i]->exact == Some(bytes@[i] as u64)
                }
            },
            None => texts@.len() == 0 && bytes@.len() == 0,
        },
{
    let got = texts@.map_values(|s: String| s@);
    assert(got.len() == texts@.len());
    if value@.list_field(name@) is Some {
        let items = value@.list_field(name@)->Some_0;
        if forall|k: int| 0 <= k < items.len() ==> #[trigger] items[k] is Text {
            let all = Seq::new(items.len(), |k: int| items[k]->Text_0);
            assert forall|k: int| 0 <= k < items.len() implies #[trigger] items[k]
                == JsonView::Text(all[k]) by {
                assert(items[k] is Text);
            }
            law_text_arrays(items, all);
            if 0 <= i < items.len() {
                assert(got[i] == texts@[i]@);
            }
        }
        if forall|k: int|
            0 <= k < items.len() ==> (#[trigger] items[k]) is Number && items[k]->exact is Some
                && items[k]->exact->Some_0 < 256 {
            let all = Seq::new(items.len(), |k: int| items[k]->exact->Some_0 as u8);
            assert forall|k: int| 0 <= k < items.len() implies (#[trigger] items[k]) is Number
                && items[k]->exact == Some(all[k] as u64) by {
                assert(items[k]->exact->Some_0 < 256);
            }
            law_byte_arrays(items, all);
        }
    }
}

/// What is built is read back: a value that is put under a new name is found there, the values
/// under other names stay, and an object that was just made has none.
pub proof fn law_built_objects(
    fresh: Json,
    any: &str,
    nothing: Option<&Json>,
    before: Json,
    name: &str,
    value: Json,
    after: Json,
    was: Option<&Json>,
    found: Option<&Json>,
    other: &str,
    kept: Option<&Json>,
    stays: Option<&Json>,
)
    requires
        call_ensures(Json::object, (), fresh),
        call_ensures(Json::get, (&fresh, any), nothing),
        before is Object,
        call_ensures(Json::with, (before, name, value), after),
        call_ensures(Json::get, (&before, name), was),
        was is None,
        call_ensures(Json::get, (&after, name), found),
        other@ != name@,
        call_ensures(Json::get, (&before, other), kept),
        call_ensures(Json::get, (&after, other), stays),
    ensures
        nothing is None,
        found is Some,
        found->Some_0@ == value@,
        kept is Some <==> stays is Some,
        kept is Some ==> stays->Some_0@ == kept->Some_0@,
        after is Object,
{
    let pairs = before@->Object_0;
    law_written_is_read(pairs, name@, value@, other@);
    assert(JsonView::Object(pairs) == before@);
}

/// A string, a number, and a number that may be missing, as JSON.
pub proof fn law_built_values(s: &str, text: Json, n: u64, number: Json, some: Json, none: Json)
    requires
        call_ensures(Json::from_text, (s,), text),
        call_ensures(Json::from_u64, (n,), number),
        call_ensures(Json::from_option, (Some(n),), some),
        call_ensures(Json::from_option, (None,), none),
    ensures
        text@ == JsonView::Text(s@),
        number@ == (JsonView::Number { exact: Some(n), whole: n }),
        some@ == number@,
        none@ == JsonView::Null,
{
}

/// A number under a name is read as it is where it is a whole one, a string where it is one, a
/// list where it is one; of another kind nothing is read.
pub proof fn law_fields(pairs: Seq<(Seq<char>, JsonView)>, name: Seq<char>, value: JsonView)
    requires
        JsonView::Object(pairs).field(name) == Some(value),
    ensures
        ({
            let o = JsonView::Object(pairs);
            &&& o.field_or_null(name) == value
            &&& o.text_field(name) is Some <==> value is Text
            &&& value is Text ==> o.text_field(name) == Some(value->Text_0)
            &&& value is Number ==> o.u64_field(name) == value->exact
            &&& value is Number ==> o.whole_field(name) == Some(value->whole)
            &&& !(value is Number) ==> o.u64_field(name) is None && o.whole_field(name) is None
            &&& o.list_field(name) is Some <==> value is List
            &&& value is List ==> o.list_field(name) == Some(value->List_0)
        }),
{
}

} // verus!
