//! Menus: a title and an ordered list of labelled payloads. A menu is a
//! pure, disposable projection of the currently legal actions — recomputed
//! from world state, never authoritative.

use vstd::prelude::*;
use vstd::string::StringExecFns;

verus! {

/// One selectable line of a menu: a label and the payload dispatched when
/// the line is confirmed.
#[derive(Debug)]
pub struct Item<T> {
    text: String,
    data: T,
}

impl<T> Item<T> {
    pub closed spec fn spec_text(self) -> Seq<char> {
        self.text@
    }

    pub closed spec fn spec_data(self) -> T {
        self.data
    }

    pub fn text(&self) -> (r: &str)
        ensures
            r@ == self.spec_text(),
    {
        self.text.as_str()
    }

    pub fn data(&self) -> (r: &T)
        ensures
            *r == self.spec_data(),
    {
        &self.data
    }
}

/// A titled, ordered list of items.
#[derive(Debug)]
pub struct Menu<T> {
    title: String,
    items: Vec<Item<T>>,
}

impl<T> Menu<T> {
    pub closed spec fn spec_title(self) -> Seq<char> {
        self.title@
    }

    pub closed spec fn spec_items(self) -> Seq<Item<T>> {
        self.items@
    }

    pub fn new(title: &str) -> (m: Menu<T>)
        ensures
            m.spec_title() == title@,
            m.spec_items().len() == 0,
    {
        Menu { title: String::from_str(title), items: Vec::new() }
    }

    /// Appends an item; everything already listed stays in place.
    pub fn add(&mut self, text: &str, data: T)
        ensures
            final(self).spec_title() == old(self).spec_title(),
            final(self).spec_items().len() == old(self).spec_items().len() + 1,
            final(self).spec_items().subrange(0, old(self).spec_items().len() as int) == old(
                self,
            ).spec_items(),
            final(self).spec_items().last().spec_text() == text@,
            final(self).spec_items().last().spec_data() == data,
    {
        let ghost items0 = self.items@;
        self.items.push(Item { text: String::from_str(text), data });
        proof {
            assert(self.items@.subrange(0, items0.len() as int) =~= items0);
        }
    }

    pub fn clear(&mut self)
        ensures
            final(self).spec_title() == old(self).spec_title(),
            final(self).spec_items().len() == 0,
    {
        self.items.clear();
    }

    pub fn title(&self) -> (r: &str)
        ensures
            r@ == self.spec_title(),
    {
        self.title.as_str()
    }

    pub fn items(&self) -> (r: &[Item<T>])
        ensures
            r@ == self.spec_items(),
    {
        self.items.as_slice()
    }

    pub fn get(&self, index: usize) -> (r: Option<&Item<T>>)
        ensures
            match r {
                Some(item) => index < self.spec_items().len() && *item == self.spec_items()[
                    index as int
                ],
                None => index >= self.spec_items().len(),
            },
    {
        if index < self.items.len() {
            Some(&self.items[index])
        } else {
            None
        }
    }

    pub fn len(&self) -> (n: usize)
        ensures
            n == self.spec_items().len(),
    {
        self.items.len()
    }
}

} // verus!
