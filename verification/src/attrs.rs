//! Free-form node attributes: a small string-keyed map with unique keys.
//!
//! Insertion order is kept so that renderers can reproduce the map
//! deterministically; the order itself carries no meaning.

use vstd::prelude::*;

verus! {

/// The mathematical model of an attribute map: the key/value pairs in
/// insertion order.
pub type AttrsView = Seq<(Seq<char>, Option<Seq<char>>)>;

/// The view of an optional string.
pub open spec fn opt_str_view(o: Option<String>) -> Option<Seq<char>> {
    match o {
        Option::None => Option::None,
        Option::Some(s) => Option::Some(s@),
    }
}

/// First index at which `key` occurs in `s`, or `-1` if it does not.
pub open spec fn attrs_index_of(s: AttrsView, key: Seq<char>) -> int
    decreases s.len(),
{
    if s.len() == 0 {
        -1
    } else if s[0].0 == key {
        0
    } else {
        let rest = attrs_index_of(s.drop_first(), key);
        if rest == -1 {
            -1
        } else {
            rest + 1
        }
    }
}

/// Whether `s` binds `key`.
pub open spec fn attrs_contains(s: AttrsView, key: Seq<char>) -> bool {
    attrs_index_of(s, key) != -1
}

/// The value bound to `key` in `s`; meaningful only when `attrs_contains`.
pub open spec fn attrs_value_of(s: AttrsView, key: Seq<char>) -> Option<Seq<char>>
    recommends
        attrs_contains(s, key),
{
    s[attrs_index_of(s, key)].1
}

/// Keys are pairwise distinct.
pub open spec fn attrs_keys_unique(s: AttrsView) -> bool {
    forall|i: int, j: int| 0 <= i < j < s.len() ==> s[i].0 != s[j].0
}

proof fn lemma_attrs_index_of_in_range(s: AttrsView, key: Seq<char>)
    ensures
        attrs_index_of(s, key) == -1 || (0 <= attrs_index_of(s, key) < s.len()
            && s[attrs_index_of(s, key)].0 == key),
    decreases s.len(),
{
    if s.len() > 0 && s[0].0 != key {
        lemma_attrs_index_of_in_range(s.drop_first(), key);
    }
}

proof fn lemma_attrs_index_of_first(s: AttrsView, key: Seq<char>, i: int)
    requires
        0 <= i < s.len(),
        s[i].0 == key,
        forall|j: int| 0 <= j < i ==> s[j].0 != key,
    ensures
        attrs_index_of(s, key) == i,
    decreases s.len(),
{
    if s[0].0 != key {
        assert(i != 0);
        assert(forall|j: int| 0 <= j < i - 1 ==> s.drop_first()[j].0 != key);
        lemma_attrs_index_of_first(s.drop_first(), key, i - 1);
    }
}

proof fn lemma_attrs_index_of_absent(s: AttrsView, key: Seq<char>)
    requires
        forall|j: int| 0 <= j < s.len() ==> s[j].0 != key,
    ensures
        attrs_index_of(s, key) == -1,
    decreases s.len(),
{
    if s.len() > 0 {
        lemma_attrs_index_of_absent(s.drop_first(), key);
    }
}

/// An attribute map: string key to optional string value, keys unique,
/// insertion order kept.
#[derive(Debug, PartialEq, Eq)]
pub struct Attrs {
    items: Vec<(String, Option<String>)>,
}

impl Clone for Attrs {
    /// Deep copy; the copy has the same view.
    fn clone(&self) -> (r: Self)
        ensures
            r@ == self@,
    {
        let mut items: Vec<(String, Option<String>)> = Vec::new();
        let mut i: usize = 0;
        while i < self.items.len()
            invariant
                0 <= i <= self.items.len(),
                items@.len() == i,
                forall|j: int| 0 <= j < i ==> items@[j] == self.items@[j],
            decreases self.items.len() - i,
        {
            let value = match &self.items[i].1 {
                Option::Some(s) => Option::Some(s.clone()),
                Option::None => Option::None,
            };
            items.push((self.items[i].0.clone(), value));
            i += 1;
        }
        proof {
            assert(items@ =~= self.items@);
        }
        Attrs { items }
    }
}

impl View for Attrs {
    type V = AttrsView;

    closed spec fn view(&self) -> AttrsView {
        self.items@.map_values(|p: (String, Option<String>)| (p.0@, opt_str_view(p.1)))
    }
}

impl Attrs {
    /// Key uniqueness, established by `new` and kept by `insert`.
    pub open spec fn wf(&self) -> bool {
        attrs_keys_unique(self@)
    }

    /// Creates an empty attribute map.
    pub fn new() -> (r: Attrs)
        ensures
            r@ == AttrsView::empty(),
            r.wf(),
    {
        let r = Attrs { items: Vec::new() };
        proof {
            assert(r@ =~= AttrsView::empty());
        }
        r
    }

    /// Number of attributes.
    pub fn len(&self) -> (r: usize)
        ensures
            r == self@.len(),
    {
        self.items.len()
    }

    /// Whether the map is empty.
    pub fn is_empty(&self) -> (r: bool)
        ensures
            r == (self@.len() == 0),
    {
        self.items.len() == 0
    }

    /// The underlying key/value pairs, in insertion order.
    pub fn items(&self) -> (r: &Vec<(String, Option<String>)>)
        ensures
            r@.len() == self@.len(),
            forall|i: int|
                0 <= i < self@.len() ==> #[trigger] self@[i] == (r@[i].0@, opt_str_view(r@[i].1)),
    {
        &self.items
    }

    /// Binds `key` to `value`: overwrites the binding in place when the key
    /// is present, appends it otherwise.
    #[verifier::loop_isolation(false)]
    pub fn insert(&mut self, key: String, value: Option<String>)
        requires
            old(self).wf(),
        ensures
            final(self).wf(),
            attrs_contains(old(self)@, key@) ==> final(self)@ == old(self)@.update(
                attrs_index_of(old(self)@, key@),
                (key@, opt_str_view(value)),
            ),
            !attrs_contains(old(self)@, key@) ==> final(self)@ == old(self)@.push(
                (key@, opt_str_view(value)),
            ),
    {
        let ghost old_view = old(self)@;
        let mut i: usize = 0;
        while i < self.items.len()
            invariant
                0 <= i <= self.items.len(),
                *self == *old(self),
                old_view == self@,
                old_view.len() == self.items@.len(),
                forall|j: int| 0 <= j < i ==> self@[j].0 != key@,
            decreases self.items.len() - i,
        {
            if self.items[i].0 == key {
                proof {
                    assert(self@[i as int].0 == key@);
                    lemma_attrs_index_of_first(old_view, key@, i as int);
                }
                self.items.set(i, (key, value));
                proof {
                    assert(self@ =~= old_view.update(i as int, (key@, opt_str_view(value))));
                    assert(forall|x: int|
                        0 <= x < self@.len() ==> #[trigger] self@[x].0 == old_view[x].0);
                    assert forall|a: int, b: int|
                        0 <= a < b < self@.len() implies self@[a].0 != self@[b].0 by {
                        assert(attrs_keys_unique(old_view));
                        assert(self@[a].0 == old_view[a].0);
                        assert(self@[b].0 == old_view[b].0);
                        assert(old_view[a].0 != old_view[b].0);
                    }
                    assert(self.wf());
                }
                return ;
            }
            i += 1;
        }
        proof {
            lemma_attrs_index_of_absent(old_view, key@);
        }
        self.items.push((key, value));
        proof {
            assert(self@ =~= old_view.push((key@, opt_str_view(value))));
            assert(self.wf());
        }
    }

    /// Looks `key` up; `None` when absent, `Some(value)` when bound.
    #[verifier::loop_isolation(false)]
    pub fn get(&self, key: &str) -> (r: Option<Option<String>>)
        ensures
            attrs_contains(self@, key@) ==> match r {
                Option::Some(v) => opt_str_view(v) == attrs_value_of(self@, key@),
                Option::None => false,
            },
            !attrs_contains(self@, key@) ==> r is None,
    {
        let owned = key.to_owned();
        let mut i: usize = 0;
        while i < self.items.len()
            invariant
                0 <= i <= self.items.len(),
                owned@ == key@,
                forall|j: int| 0 <= j < i ==> self@[j].0 != key@,
            decreases self.items.len() - i,
        {
            if self.items[i].0 == owned {
                proof {
                    lemma_attrs_index_of_first(self@, key@, i as int);
                }
                let found = &self.items[i].1;
                let out = match found {
                    Option::Some(s) => Option::Some(s.clone()),
                    Option::None => Option::None,
                };
                return Option::Some(out);
            }
            i += 1;
        }
        proof {
            lemma_attrs_index_of_absent(self@, key@);
        }
        Option::None
    }

    /// Whether `key` is bound.
    pub fn contains_key(&self, key: &str) -> (r: bool)
        ensures
            r == attrs_contains(self@, key@),
    {
        self.get(key).is_some()
    }
}

} // verus!
