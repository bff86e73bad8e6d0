//! The named content that tooltip panels display.
//!
//! The host fills a [`TooltipMap`] before any link can resolve. Activating a
//! link looks its string up here; each entry is a title plus an ordered run
//! of [`TooltipsContent`] segments that drive how the rendered spans behave.

use vstd::prelude::*;

verus! {

/// One segment of a tooltip's text content. Every variant renders as text,
/// but the rendered span behaves differently when it is later hovered.
#[derive(Debug)]
pub enum TooltipsContent {
    /// Plain text for the reader, with no behaviour of its own.
    String(String),
    /// A link to another content key: activating the rendered span opens a
    /// tooltip panel nested under the panel that shows this segment.
    Term(String),
    /// A highlight tag: hovering the rendered span highlights every
    /// registered highlight target carrying the same tag.
    Highlight(String),
}

impl TooltipsContent {
    /// The text that this segment renders, whatever its behaviour.
    pub open spec fn spec_text(self) -> Seq<char> {
        match self {
            TooltipsContent::String(s) => s@,
            TooltipsContent::Term(s) => s@,
            TooltipsContent::Highlight(s) => s@,
        }
    }

    pub open spec fn is_string(self) -> bool {
        self is String
    }

    pub open spec fn is_term(self) -> bool {
        self is Term
    }

    pub open spec fn is_highlight(self) -> bool {
        self is Highlight
    }
}

/// One value of the content map: the panel's title and the ordered segments
/// of its body text.
#[derive(Debug)]
pub struct ContentEntry {
    /// Shown as the panel's title line.
    pub title: String,
    /// The body, rendered segment by segment in order.
    pub content: Vec<TooltipsContent>,
}

/// The data of the tooltips, keyed by the string a link carries. Keys are
/// unique; entries are immutable once stored and are only replaced whole.
#[derive(Debug)]
pub struct TooltipMap {
    /// Association list from key to entry, oldest first.
    pub map: Vec<(String, ContentEntry)>,
}

impl TooltipMap {
    /// Keys are pairwise distinct.
    pub open spec fn wf(self) -> bool {
        forall|i: int, j: int|
            0 <= i < j < self.map@.len() ==> self.map@[i].0@ != self.map@[j].0@
    }

    pub open spec fn contains_key(self, key: Seq<char>) -> bool {
        exists|i: int| 0 <= i < self.map@.len() && self.map@[i].0@ == key
    }

    /// The position of `key`, meaningful only when `contains_key` holds.
    pub open spec fn key_index(self, key: Seq<char>) -> int {
        choose|i: int| 0 <= i < self.map@.len() && self.map@[i].0@ == key
    }

    /// The entry stored under `key`, if any.
    pub open spec fn spec_get(self, key: Seq<char>) -> Option<ContentEntry> {
        if self.contains_key(key) {
            Some(self.map@[self.key_index(key)].1)
        } else {
            None
        }
    }

    /// An empty content map.
    pub fn new() -> (r: TooltipMap)
        ensures
            r.wf(),
            r.map@.len() == 0,
            forall|k: Seq<char>| !r.contains_key(k),
    {
        TooltipMap { map: Vec::new() }
    }

    /// Looks a key up. Returns the entry stored under it, and `None` exactly
    /// when the key is absent.
    pub fn get(&self, key: &String) -> (r: Option<&ContentEntry>)
        requires
            self.wf(),
        ensures
            match r {
                Some(e) => self.contains_key(key@) && self.spec_get(key@) == Some(*e),
                None => !self.contains_key(key@),
            },
    {
        let n = self.map.len();
        let mut i: usize = 0;
        while i < n
            invariant
                n == self.map@.len(),
                0 <= i <= n,
                self.wf(),
                forall|j: int| 0 <= j < i ==> self.map@[j].0@ != key@,
            decreases n - i,
        {
            let stored: &String = &self.map[i].0;
            if *stored == *key {
                proof {
                    let w = self.key_index(key@);
                    assert(self.map@[w as int].0@ == key@);
                    assert(w == i);
                }
                return Some(&self.map[i].1);
            }
            i = i + 1;
        }
        None
    }

    /// Stores `entry` under `key`, replacing any entry already there. Every
    /// other key keeps its entry.
    pub fn insert(&mut self, key: String, entry: ContentEntry)
        requires
            old(self).wf(),
        ensures
            final(self).wf(),
            final(self).contains_key(key@),
            final(self).spec_get(key@) == Some(entry),
            forall|k: Seq<char>| k != key@ ==> final(self).spec_get(k) == old(self).spec_get(k),
            forall|k: Seq<char>|
                #[trigger] final(self).contains_key(k) == (old(self).contains_key(k) || k == key@),
    {
        let n = self.map.len();
        let mut i: usize = 0;
        while i < n
            invariant
                *self == *old(self),
                n == self.map@.len(),
                0 <= i <= n,
                old(self).wf(),
                forall|j: int| 0 <= j < i ==> self.map@[j].0@ != key@,
            decreases n - i,
        {
            let stored: &String = &self.map[i].0;
            if *stored == key {
                let slot = vstd::std_specs::vec::vec_index_mut(&mut self.map, i);
                *slot = (key, entry);
                proof {
                    lemma_assoc_update(*old(self), *self, i as int, key@, entry);
                }
                return;
            }
            i = i + 1;
        }
        self.map.push((key, entry));
        proof {
            lemma_assoc_append(*old(self), *self, key@, entry);
        }
    }
}

/// After replacing the slot that held `key`, lookups behave as `insert`
/// promises.
proof fn lemma_assoc_update(
    pre: TooltipMap,
    post: TooltipMap,
    i: int,
    key: Seq<char>,
    entry: ContentEntry,
)
    requires
        pre.wf(),
        0 <= i < pre.map@.len(),
        pre.map@[i].0@ == key,
        post.map@.len() == pre.map@.len(),
        forall|j: int| 0 <= j < pre.map@.len() && j != i ==> post.map@[j] == pre.map@[j],
        post.map@[i].0@ == key,
        post.map@[i].1 == entry,
    ensures
        post.wf(),
        post.contains_key(key),
        post.spec_get(key) == Some(entry),
        forall|k: Seq<char>| k != key ==> post.spec_get(k) == pre.spec_get(k),
        forall|k: Seq<char>|
            #[trigger] post.contains_key(k) == (pre.contains_key(k) || k == key),
{
    assert(forall|j: int| 0 <= j < post.map@.len() ==> post.map@[j].0@ == pre.map@[j].0@);
    assert(post.contains_key(key));
    assert(post.key_index(key) == i) by {
        let w = post.key_index(key);
        assert(post.map@[w].0@ == key);
    }
    assert forall|k: Seq<char>| k != key implies post.spec_get(k) == pre.spec_get(k) by {
        if pre.contains_key(k) {
            let w = pre.key_index(k);
            assert(post.map@[w].0@ == k);
            assert(post.contains_key(k));
            let w2 = post.key_index(k);
            assert(post.map@[w2].0@ == k);
            assert(w2 == w);
            assert(w != i);
        } else {
            assert(!post.contains_key(k)) by {
                if post.contains_key(k) {
                    let w = post.key_index(k);
                    assert(pre.map@[w].0@ == k);
                }
            }
        }
    }
    assert forall|k: Seq<char>|
        #[trigger] post.contains_key(k) == (pre.contains_key(k) || k == key) by {
        if post.contains_key(k) {
            let w = post.key_index(k);
            assert(pre.map@[w].0@ == k);
        }
        if pre.contains_key(k) {
            let w = pre.key_index(k);
            assert(post.map@[w].0@ == k);
        }
    }
}

/// After appending a key that was absent, lookups behave as `insert`
/// promises.
proof fn lemma_assoc_append(pre: TooltipMap, post: TooltipMap, key: Seq<char>, entry: ContentEntry)
    requires
        pre.wf(),
        !pre.contains_key(key),
        post.map@.len() == pre.map@.len() + 1,
        forall|j: int| 0 <= j < pre.map@.len() ==> post.map@[j] == pre.map@[j],
        post.map@[pre.map@.len() as int].0@ == key,
        post.map@[pre.map@.len() as int].1 == entry,
    ensures
        post.wf(),
        post.contains_key(key),
        post.spec_get(key) == Some(entry),
        forall|k: Seq<char>| k != key ==> post.spec_get(k) == pre.spec_get(k),
        forall|k: Seq<char>|
            #[trigger] post.contains_key(k) == (pre.contains_key(k) || k == key),
{
    let n = pre.map@.len() as int;
    assert(forall|j: int| 0 <= j < n ==> post.map@[j].0@ != key);
    assert(post.wf());
    assert(post.map@[n].0@ == key);
    assert(post.contains_key(key));
    assert(post.key_index(key) == n) by {
        let w = post.key_index(key);
        assert(post.map@[w].0@ == key);
        if w < n {
            assert(pre.map@[w].0@ == key);
        }
    }
    assert forall|k: Seq<char>| k != key implies post.spec_get(k) == pre.spec_get(k) by {
        if pre.contains_key(k) {
            let w = pre.key_index(k);
            assert(post.map@[w].0@ == k);
            let w2 = post.key_index(k);
            assert(post.map@[w2].0@ == k);
            assert(w2 == w);
        } else {
            if post.contains_key(k) {
                let w = post.key_index(k);
                assert(w == n);
            }
        }
    }
    assert forall|k: Seq<char>|
        #[trigger] post.contains_key(k) == (pre.contains_key(k) || k == key) by {
        if post.contains_key(k) {
            let w = post.key_index(k);
            if w < n {
                assert(pre.map@[w].0@ == k);
            }
        }
        if pre.contains_key(k) {
            let w = pre.key_index(k);
            assert(post.map@[w].0@ == k);
        }
    }
}

} // verus!
