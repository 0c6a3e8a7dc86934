//! JSON values as trees, as far as the gateways need them.

use vstd::prelude::*;

use crate::text::same_text;

verus! {

/// A JSON value.
pub enum Json {
    /// `null`.
    Null,
    /// `true` or `false`.
    Bool(bool),
    /// A number: its value where it is an integer from 0 to `2^64 - 1`, and the integer
    /// it is cut to, kept within that range.
    Number { exact: Option<u64>, whole: u64 },
    /// A string.
    Text(String),
    /// An array.
    List(Vec<Json>),
    /// An object, as its names and values in order.
    Object(Vec<(String, Json)>),
}

/// A JSON value in contracts.
pub enum JsonView {
    Null,
    Bool(bool),
    Number { exact: Option<u64>, whole: u64 },
    Text(Seq<char>),
    List(Seq<JsonView>),
    Object(Seq<(Seq<char>, JsonView)>),
}

impl View for Json {
    type V = JsonView;

    open spec fn view(&self) -> JsonView {
        self.tree()
    }
}

impl Json {
    /// The value as contracts see it.
    pub open spec fn tree(&self) -> JsonView
        decreases self,
    {
        match *self {
            Json::Null => JsonView::Null,
            Json::Bool(b) => JsonView::Bool(b),
            Json::Number { exact, whole } => JsonView::Number { exact, whole },
            Json::Text(s) => JsonView::Text(s@),
            Json::List(v) => JsonView::List(
                Seq::new(
                    v@.len(),
                    |i: int|
                        if 0 <= i < v@.len() {
                            v[i].tree()
                        } else {
                            JsonView::Null
                        },
                ),
            ),
            Json::Object(v) => JsonView::Object(
                Seq::new(
                    v@.len(),
                    |i: int|
                        if 0 <= i < v@.len() {
                            (v[i].0@, v[i].1.tree())
                        } else {
                            (Seq::empty(), JsonView::Null)
                        },
                ),
            ),
        }
    }
}

/// The value under the first of the pairs with the name.
pub open spec fn value_named(pairs: Seq<(Seq<char>, JsonView)>, name: Seq<char>) -> Option<JsonView>
    decreases pairs.len(),
{
    if pairs.len() == 0 {
        None
    } else if pairs[0].0 == name {
        Some(pairs[0].1)
    } else {
        value_named(pairs.drop_first(), name)
    }
}

impl JsonView {
    /// The value under a name; only objects have any.
    pub open spec fn field(self, name: Seq<char>) -> Option<JsonView> {
        match self {
            JsonView::Object(pairs) => value_named(pairs, name),
            _ => None,
        }
    }

    /// The integer under a name.
    pub open spec fn u64_field(self, name: Seq<char>) -> Option<u64> {
        match self.field(name) {
            Some(JsonView::Number { exact, whole }) => exact,
            _ => None,
        }
    }

    /// The number under a name, cut to an integer.
    pub open spec fn whole_field(self, name: Seq<char>) -> Option<u64> {
        match self.field(name) {
            Some(JsonView::Number { exact, whole }) => Some(whole),
            _ => None,
        }
    }

    /// The string under a name.
    pub open spec fn text_field(self, name: Seq<char>) -> Option<Seq<char>> {
        match self.field(name) {
            Some(JsonView::Text(s)) => Some(s),
            _ => None,
        }
    }

    /// The array under a name.
    pub open spec fn list_field(self, name: Seq<char>) -> Option<Seq<JsonView>> {
        match self.field(name) {
            Some(JsonView::List(items)) => Some(items),
            _ => None,
        }
    }

    /// The value under a name, or `null`.
    pub open spec fn field_or_null(self, name: Seq<char>) -> JsonView {
        match self.field(name) {
            Some(v) => v,
            None => JsonView::Null,
        }
    }

    /// An integer.
    pub open spec fn whole_number(n: u64) -> JsonView {
        JsonView::Number { exact: Some(n), whole: n }
    }

    /// An object without fields.
    pub open spec fn empty_object() -> JsonView {
        JsonView::Object(Seq::empty())
    }

    /// The object with one more field.
    pub open spec fn with(self, name: Seq<char>, value: JsonView) -> JsonView {
        JsonView::Object(self->Object_0.push((name, value)))
    }

    /// An integer, or `null`.
    pub open spec fn number_or_null(n: Option<u64>) -> JsonView {
        match n {
            Some(n) => JsonView::whole_number(n),
            None => JsonView::Null,
        }
    }
}

/// The strings in an array, in order; what is no string is left out.
pub open spec fn texts_in(items: Seq<JsonView>) -> Seq<Seq<char>>
    decreases items.len(),
{
    if items.len() == 0 {
        Seq::empty()
    } else {
        match items.last() {
            JsonView::Text(s) => texts_in(items.drop_last()).push(s),
            _ => texts_in(items.drop_last()),
        }
    }
}

/// The low bytes of the integers in an array, in order; what is no integer is left out.
pub open spec fn bytes_in(items: Seq<JsonView>) -> Seq<u8>
    decreases items.len(),
{
    if items.len() == 0 {
        Seq::empty()
    } else {
        match items.last() {
            JsonView::Number { exact: Some(n), whole: _ } => bytes_in(items.drop_last()).push(
                (n % 256) as u8,
            ),
            _ => bytes_in(items.drop_last()),
        }
    }
}

impl Json {
    /// The value under a name; only objects have any.
    pub fn get(&self, name: &str) -> (r: Option<&Json>)
        ensures
            match r {
                Some(v) => self@.field(name@) == Some(v@),
                None => self@.field(name@) is None,
            },
    {
        match self {
            Json::Object(pairs) => {
                let ghost all = self@->Object_0;
                let mut i: usize = 0;
                assert(all.skip(0) =~= all);
                while i < pairs.len()
                    invariant
                        i <= pairs@.len(),
                        self@ == JsonView::Object(all),
                        all.len() == pairs@.len(),
                        forall|k: int|
                            0 <= k < pairs@.len() ==> #[trigger] all[k] == (
                                pairs@[k].0@,
                                pairs@[k].1@,
                            ),
                        value_named(all, name@) == value_named(all.skip(i as int), name@),
                    decreases pairs@.len() - i,
                {
                    assert(all.skip(i as int)[0] == all[i as int]);
                    assert(all.skip(i as int).drop_first() =~= all.skip(i + 1));
                    if same_text(pairs[i].0.as_str(), name) {
                        return Some(&pairs[i].1);
                    }
                    i = i + 1;
                }
                None
            },
            _ => None,
        }
    }

    /// The integer under a name.
    pub fn get_u64(&self, name: &str) -> (r: Option<u64>)
        ensures
            r == self@.u64_field(name@),
    {
        match self.get(name) {
            Some(Json::Number { exact, whole: _ }) => *exact,
            _ => None,
        }
    }

    /// The number under a name, cut to an integer.
    pub fn get_whole(&self, name: &str) -> (r: Option<u64>)
        ensures
            r == self@.whole_field(name@),
    {
        match self.get(name) {
            Some(Json::Number { exact: _, whole }) => Some(*whole),
            _ => None,
        }
    }

    /// The string under a name.
    pub fn get_text(&self, name: &str) -> (r: Option<&str>)
        ensures
            match r {
                Some(s) => self@.text_field(name@) == Some(s@),
                None => self@.text_field(name@) is None,
            },
    {
        match self.get(name) {
            Some(Json::Text(s)) => Some(s.as_str()),
            _ => None,
        }
    }

    /// The string under a name, or an empty one.
    pub fn text_or_empty(&self, name: &str) -> (r: String)
        ensures
            r@ == (match self@.text_field(name@) {
                Some(s) => s,
                None => Seq::empty(),
            }),
    {
        match self.get_text(name) {
            Some(s) => s.to_owned(),
            None => String::new(),
        }
    }

    /// The strings in the array under a name; none where there is no array.
    pub fn get_texts(&self, name: &str) -> (r: Vec<String>)
        ensures
            r@.map_values(|s: String| s@) == (match self@.list_field(name@) {
                Some(items) => texts_in(items),
                None => Seq::empty(),
            }),
    {
        let mut out: Vec<String> = Vec::new();
        assert(out@.map_values(|s: String| s@) =~= Seq::<Seq<char>>::empty());
        match self.get(name) {
            Some(Json::List(items)) => {
                let ghost all = self@.list_field(name@)->Some_0;
                let mut i: usize = 0;
                assert(all.take(0) =~= Seq::<JsonView>::empty());
                while i < items.len()
                    invariant
                        i <= items@.len(),
                        all.len() == items@.len(),
                        forall|k: int| 0 <= k < items@.len() ==> #[trigger] all[k] == items@[k]@,
                        out@.map_values(|s: String| s@) == texts_in(all.take(i as int)),
                    decreases items@.len() - i,
                {
                    assert(all.take(i + 1).drop_last() =~= all.take(i as int));
                    assert(all.take(i + 1).last() == items@[i as int]@);
                    if let Json::Text(s) = &items[i] {
                        let ghost before = out@;
                        out.push(s.clone());
                        assert(out@.map_values(|s: String| s@) =~= before.map_values(
                            |s: String| s@,
                        ).push(s@));
                    }
                    i = i + 1;
                }
                assert(all.take(i as int) =~= all);
                out
            },
            _ => out,
        }
    }

    /// The low bytes of the integers in the array under a name; none where there is no
    /// array.
    pub fn get_bytes(&self, name: &str) -> (r: Vec<u8>)
        ensures
            r@ == (match self@.list_field(name@) {
                Some(items) => bytes_in(items),
                None => Seq::empty(),
            }),
    {
        let mut out: Vec<u8> = Vec::new();
        assert(out@ =~= Seq::<u8>::empty());
        match self.get(name) {
            Some(Json::List(items)) => {
                let ghost all = self@.list_field(name@)->Some_0;
                let mut i: usize = 0;
                assert(all.take(0) =~= Seq::<JsonView>::empty());
                while i < items.len()
                    invariant
                        i <= items@.len(),
                        all.len() == items@.len(),
                        forall|k: int| 0 <= k < items@.len() ==> #[trigger] all[k] == items@[k]@,
                        out@ == bytes_in(all.take(i as int)),
                    decreases items@.len() - i,
                {
                    assert(all.take(i + 1).drop_last() =~= all.take(i as int));
                    assert(all.take(i + 1).last() == items@[i as int]@);
                    if let Json::Number { exact: Some(n), whole: _ } = &items[i] {
                        out.push((*n % 256) as u8);
                    }
                    i = i + 1;
                }
                assert(all.take(i as int) =~= all);
                out
            },
            _ => out,
        }
    }

    /// An integer.
    pub fn from_u64(n: u64) -> (r: Json)
        ensures
            r@ == JsonView::whole_number(n),
    {
        Json::Number { exact: Some(n), whole: n }
    }

    /// An integer, or `null`.
    pub fn from_option(n: Option<u64>) -> (r: Json)
        ensures
            r@ == JsonView::number_or_null(n),
    {
        match n {
            Some(n) => Json::from_u64(n),
            None => Json::Null,
        }
    }

    /// A string.
    pub fn from_text(s: &str) -> (r: Json)
        ensures
            r@ == JsonView::Text(s@),
    {
        Json::Text(s.to_owned())
    }

    /// An object without fields.
    pub fn object() -> (r: Json)
        ensures
            r is Object,
            r@ == JsonView::empty_object(),
    {
        let r = Json::Object(Vec::new());
        assert(r@->Object_0 =~= Seq::<(Seq<char>, JsonView)>::empty());
        r
    }

    /// The object with one more field.
    pub fn with(self, name: &str, value: Json) -> (r: Json)
        requires
            self is Object,
        ensures
            r is Object,
            r@ == self@.with(name@, value@),
    {
        let ghost before = self@->Object_0;
        let ghost v = value@;
        match self {
            Json::Object(mut pairs) => {
                pairs.push((name.to_owned(), value));
                let r = Json::Object(pairs);
                assert(r@->Object_0 =~= before.push((name@, v)));
                r
            },
            other => other,
        }
    }
}

} // verus!
