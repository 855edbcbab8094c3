//! A small JSON document model.
//!
//! Outbound messages are rendered as JSON documents of this type; the
//! contracts of the serializers pin down, per variant, exactly which
//! fields a document carries.  Turning a finished document into wire
//! bytes is left to the unverified transport layer.

use vstd::prelude::*;

verus! {

broadcast use vstd::std_specs::vec::group_vec_axioms;

/// A JSON value: null, a boolean, a string, an array, or an object
/// (an ordered list of key/value pairs).
#[derive(Debug, PartialEq)]
pub enum JsonValue {
    Null,
    Bool(bool),
    Str(String),
    Arr(Vec<JsonValue>),
    Obj(Vec<(String, JsonValue)>),
}

/// The mathematical model of a [`JsonValue`]: the same tree over
/// `Seq<char>` and `Seq` in place of `String` and `Vec`.
pub enum JsonView {
    Null,
    Bool(bool),
    Str(Seq<char>),
    Arr(Seq<JsonView>),
    Obj(Seq<(Seq<char>, JsonView)>),
}

/// The views of the first `n` elements of an array's items.
pub open spec fn views_of_items(items: Seq<JsonValue>, n: int) -> Seq<JsonView>
    decreases items, n,
{
    if n <= 0 || items.len() < n {
        Seq::empty()
    } else {
        proof {
            vstd::seq::axiom_seq_index_decreases(items, n - 1);
        }
        views_of_items(items, n - 1).push(items[n - 1]@)
    }
}

/// The views of the first `n` entries of an object's entry list.
pub open spec fn views_of_entries(
    entries: Seq<(String, JsonValue)>,
    n: int,
) -> Seq<(Seq<char>, JsonView)>
    decreases entries, n,
{
    if n <= 0 || entries.len() < n {
        Seq::empty()
    } else {
        proof {
            vstd::seq::axiom_seq_index_decreases(entries, n - 1);
        }
        views_of_entries(entries, n - 1).push((entries[n - 1].0@, entries[n - 1].1@))
    }
}

impl View for JsonValue {
    type V = JsonView;

    open spec fn view(&self) -> JsonView
        decreases self, 0int,
    {
        match self {
            JsonValue::Null => JsonView::Null,
            JsonValue::Bool(b) => JsonView::Bool(*b),
            JsonValue::Str(s) => JsonView::Str(s@),
            JsonValue::Arr(items) => JsonView::Arr(
                views_of_items(items@, items@.len() as int),
            ),
            JsonValue::Obj(entries) => JsonView::Obj(
                views_of_entries(entries@, entries@.len() as int),
            ),
        }
    }
}

/// The views of a sequence of values, element by element.
pub open spec fn items_view(s: Seq<JsonValue>) -> Seq<JsonView> {
    s.map(|i: int, x: JsonValue| x@)
}

/// The views of a sequence of object entries, entry by entry.
pub open spec fn entries_view(s: Seq<(String, JsonValue)>) -> Seq<(Seq<char>, JsonView)> {
    s.map(|i: int, e: (String, JsonValue)| (e.0@, e.1@))
}

proof fn lemma_views_of_items_prefix(s: Seq<JsonValue>, n: int)
    requires
        0 <= n <= s.len(),
    ensures
        views_of_items(s, n).len() == n,
        forall|i: int| 0 <= i < n ==> views_of_items(s, n)[i] == s[i]@,
    decreases n,
{
    if n <= 0 {
        assert(views_of_items(s, n) == Seq::<JsonView>::empty());
    } else {
        lemma_views_of_items_prefix(s, n - 1);
        assert(views_of_items(s, n) == views_of_items(s, n - 1).push(s[n - 1]@));
    }
}

proof fn lemma_views_of_entries_prefix(s: Seq<(String, JsonValue)>, n: int)
    requires
        0 <= n <= s.len(),
    ensures
        views_of_entries(s, n).len() == n,
        forall|i: int| 0 <= i < n ==> views_of_entries(s, n)[i] == (s[i].0@, s[i].1@),
    decreases n,
{
    if n <= 0 {
        assert(views_of_entries(s, n) == Seq::<(Seq<char>, JsonView)>::empty());
    } else {
        lemma_views_of_entries_prefix(s, n - 1);
        assert(views_of_entries(s, n) == views_of_entries(s, n - 1).push(
            (s[n - 1].0@, s[n - 1].1@),
        ));
    }
}

/// The view of an array value is the element-wise view of its items.
pub broadcast proof fn lemma_arr_view(items: Vec<JsonValue>)
    ensures
        (#[trigger] JsonValue::Arr(items)@) == JsonView::Arr(items_view(items@)),
{
    lemma_views_of_items_prefix(items@, items@.len() as int);
    assert(views_of_items(items@, items@.len() as int) =~= items_view(items@));
}

/// The view of an object value is the entry-wise view of its entries.
pub broadcast proof fn lemma_obj_view(entries: Vec<(String, JsonValue)>)
    ensures
        (#[trigger] JsonValue::Obj(entries)@) == JsonView::Obj(entries_view(entries@)),
{
    lemma_views_of_entries_prefix(entries@, entries@.len() as int);
    assert(views_of_entries(entries@, entries@.len() as int) =~= entries_view(entries@));
}

/// The value of the first entry with the given key, if any.
pub open spec fn first_with_key(entries: Seq<(Seq<char>, JsonView)>, key: Seq<char>) -> Option<
    JsonView,
>
    decreases entries.len(),
{
    if entries.len() == 0 {
        Option::None
    } else if entries[0].0 == key {
        Option::Some(entries[0].1)
    } else {
        first_with_key(entries.skip(1), key)
    }
}

impl JsonView {
    /// The keys of an object, in order; used to state which fields a
    /// document carries.
    pub open spec fn keys(self) -> Seq<Seq<char>>
        recommends
            self is Obj,
    {
        self->Obj_0.map(|i: int, e: (Seq<char>, JsonView)| e.0)
    }

    /// Object field lookup: the value under `key`, or `None` when the
    /// value is not an object or has no such field.
    pub open spec fn get(self, key: Seq<char>) -> Option<JsonView> {
        if self is Obj {
            first_with_key(self->Obj_0, key)
        } else {
            Option::None
        }
    }

    /// Array element lookup: the item at `i`, or `None` when the value
    /// is not an array or `i` is out of range.
    pub open spec fn at(self, i: int) -> Option<JsonView> {
        if self is Arr && 0 <= i < self->Arr_0.len() {
            Option::Some(self->Arr_0[i])
        } else {
            Option::None
        }
    }
}

impl JsonValue {
    /// Looks up a field of an object by key (first match wins).
    pub fn get<'a>(&'a self, key: &str) -> (r: Option<&'a JsonValue>)
        ensures
            match r {
                Option::Some(x) => self@.get(key@) == Option::Some(x@),
                Option::None => self@.get(key@) is None,
            },
    {
        match self {
            JsonValue::Obj(entries) => {
                proof {
                    lemma_obj_view(*entries);
                }
                let ghost evs = entries_view(entries@);
                proof {
                    assert(evs.skip(0) =~= evs);
                }
                let mut i: usize = 0;
                while i < entries.len()
                    invariant
                        0 <= i <= entries@.len(),
                        evs == entries_view(entries@),
                        evs.len() == entries@.len(),
                        self@.get(key@) == first_with_key(evs.skip(i as int), key@),
                        (*self)@ == JsonView::Obj(evs),
                    decreases entries@.len() - i,
                {
                    proof {
                        assert(evs.skip(i as int)[0] == evs[i as int]);
                        assert(evs.skip(i as int).skip(1) =~= evs.skip(i as int + 1));
                    }
                    if streq(entries[i].0.as_str(), key) {
                        return Option::Some(&entries[i].1);
                    }
                    i = i + 1;
                }
                proof {
                    assert(evs.skip(i as int) =~= Seq::empty());
                }
                Option::None
            },
            _ => Option::None,
        }
    }

    /// Looks up an element of an array by position.
    pub fn at<'a>(&'a self, i: usize) -> (r: Option<&'a JsonValue>)
        ensures
            match r {
                Option::Some(x) => self@.at(i as int) == Option::Some(x@),
                Option::None => self@.at(i as int) is None,
            },
    {
        match self {
            JsonValue::Arr(items) => {
                proof {
                    lemma_arr_view(*items);
                }
                if i < items.len() {
                    Option::Some(&items[i])
                } else {
                    Option::None
                }
            },
            _ => Option::None,
        }
    }
}

/// A string value, copied from a string slice.
pub fn jstr(s: &str) -> (r: JsonValue)
    ensures
        r@ == JsonView::Str(s@),
{
    JsonValue::Str(s.to_owned())
}

/// An object value made of the given entries.
pub fn jobj(entries: Vec<(String, JsonValue)>) -> (r: JsonValue)
    ensures
        r@ == JsonView::Obj(entries_view(entries@)),
{
    proof {
        lemma_obj_view(entries);
    }
    JsonValue::Obj(entries)
}

/// An array value made of the given items.
pub fn jarr(items: Vec<JsonValue>) -> (r: JsonValue)
    ensures
        r@ == JsonView::Arr(items_view(items@)),
{
    proof {
        lemma_arr_view(items);
    }
    JsonValue::Arr(items)
}

/// Compares two string slices by their character sequences.
pub fn streq(a: &str, b: &str) -> (r: bool)
    ensures
        r == (a@ == b@),
{
    let sa = a.to_owned();
    let sb = b.to_owned();
    sa.eq(&sb)
}

} // verus!
