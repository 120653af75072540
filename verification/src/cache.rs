//! The stylesheet cache of one page: style text by resolved address.
//!
//! The cache is filled while a page is fetched and then handed to the layout
//! stage, which looks stylesheets up in it instead of going to the network.
//! Entries are kept in the order in which they were added; no address occurs
//! twice.

use vstd::prelude::*;

verus! {

/// One cached stylesheet.
pub struct CacheEntry {
    url: String,
    css: String,
}

/// Style text by resolved address.
pub struct StylesheetCache {
    entries: Vec<CacheEntry>,
}

/// The mapping that a sequence of entries stands for: each entry maps its
/// address to its text.
pub closed spec fn mapping(entries: Seq<CacheEntry>) -> Map<Seq<char>, Seq<char>>
    decreases entries.len(),
{
    if entries.len() == 0 {
        Map::empty()
    } else {
        mapping(entries.drop_last()).insert(entries.last().url@, entries.last().css@)
    }
}

/// No address occurs twice among the entries.
pub closed spec fn distinct(entries: Seq<CacheEntry>) -> bool
    decreases entries.len(),
{
    entries.len() == 0 || (distinct(entries.drop_last()) && !mapping(
        entries.drop_last(),
    ).dom().contains(entries.last().url@))
}

proof fn lemma_mapping_size(entries: Seq<CacheEntry>)
    requires
        distinct(entries),
    ensures
        mapping(entries).dom().finite(),
        mapping(entries).dom().len() == entries.len(),
    decreases entries.len(),
{
    if entries.len() > 0 {
        lemma_mapping_size(entries.drop_last());
    }
}

proof fn lemma_mapping_holds_entry(entries: Seq<CacheEntry>, i: int)
    requires
        distinct(entries),
        0 <= i < entries.len(),
    ensures
        mapping(entries).contains_pair(entries[i].url@, entries[i].css@),
    decreases entries.len(),
{
    if i < entries.len() - 1 {
        lemma_mapping_holds_entry(entries.drop_last(), i);
    }
}

impl View for StylesheetCache {
    type V = Map<Seq<char>, Seq<char>>;

    closed spec fn view(&self) -> Map<Seq<char>, Seq<char>> {
        mapping(self.entries@)
    }
}

impl StylesheetCache {
    #[verifier::type_invariant]
    spec fn no_address_twice(self) -> bool {
        distinct(self.entries@)
    }

    /// The number of cached stylesheets.
    pub closed spec fn count(&self) -> nat {
        self.entries@.len()
    }

    /// The address of the `i`-th stylesheet in order of arrival.
    pub closed spec fn address_at(&self, i: int) -> Seq<char> {
        self.entries@[i].url@
    }

    /// An empty cache.
    pub fn new() -> (c: StylesheetCache)
        ensures
            c@ == Map::<Seq<char>, Seq<char>>::empty(),
            c.count() == 0,
    {
        StylesheetCache { entries: Vec::new() }
    }

    /// The number of cached stylesheets, which is the number of addresses
    /// the cache maps.
    pub fn len(&self) -> (n: usize)
        ensures
            n == self.count(),
            self@.dom().finite(),
            self@.dom().len() == n,
    {
        proof {
            use_type_invariant(self);
            lemma_mapping_size(self.entries@);
        }
        self.entries.len()
    }

    fn position(&self, url: &str) -> (r: Option<usize>)
        ensures
            match r {
                Some(i) => i < self.entries@.len() && self.entries@[i as int].url@ == url@
                    && self@.contains_pair(url@, self.entries@[i as int].css@),
                None => !self@.dom().contains(url@),
            },
    {
        proof {
            use_type_invariant(self);
        }
        let mut i: usize = 0;
        while i < self.entries.len()
            invariant
                i <= self.entries@.len(),
                distinct(self.entries@),
                !mapping(self.entries@.take(i as int)).dom().contains(url@),
            decreases self.entries@.len() - i,
        {
            let key = String::from_str(url);
            if self.entries[i].url == key {
                proof {
                    lemma_mapping_holds_entry(self.entries@, i as int);
                }
                return Some(i);
            }
            assert(self.entries@.take(i + 1).drop_last() =~= self.entries@.take(i as int));
            i += 1;
        }
        assert(self.entries@.take(i as int) =~= self.entries@);
        None
    }

    /// Tells whether a stylesheet is cached under `url`.
    pub fn contains(&self, url: &str) -> (r: bool)
        ensures
            r == self@.dom().contains(url@),
    {
        self.position(url).is_some()
    }

    /// The style text cached under `url`, if any.
    pub fn get(&self, url: &str) -> (r: Option<&String>)
        ensures
            match r {
                Some(css) => self@.contains_pair(url@, css@),
                None => !self@.dom().contains(url@),
            },
    {
        match self.position(url) {
            Some(i) => Some(&self.entries[i].css),
            None => None,
        }
    }

    /// Caches `css` under `url` unless a stylesheet is cached there already.
    /// Returns whether the stylesheet was added.
    pub fn insert(&mut self, url: String, css: String) -> (added: bool)
        ensures
            added == !old(self)@.dom().contains(url@),
            added ==> final(self)@ == old(self)@.insert(url@, css@) && final(self).count() == old(
                self,
            ).count() + 1,
            !added ==> final(self)@ == old(self)@ && final(self).count() == old(self).count(),
    {
        if self.contains(url.as_str()) {
            return false;
        }
        proof {
            use_type_invariant(&*self);
        }
        let mut taken = StylesheetCache::new();
        core::mem::swap(self, &mut taken);
        let mut entries = taken.entries;
        let ghost before = entries@;
        entries.push(CacheEntry { url, css });
        assert(entries@.drop_last() =~= before);
        *self = StylesheetCache { entries };
        true
    }

    /// The address of the `i`-th stylesheet in order of arrival. Every such
    /// address is one that the cache maps.
    pub fn url_at(&self, i: usize) -> (url: &String)
        requires
            i < self.count(),
        ensures
            url@ == self.address_at(i as int),
            self@.dom().contains(url@),
    {
        proof {
            use_type_invariant(self);
            lemma_mapping_holds_entry(self.entries@, i as int);
        }
        &self.entries[i].url
    }

    /// The text of the `i`-th stylesheet in order of arrival, which is the
    /// text cached under its address.
    pub fn css_at(&self, i: usize) -> (css: &String)
        requires
            i < self.count(),
        ensures
            self@.contains_pair(self.address_at(i as int), css@),
    {
        proof {
            use_type_invariant(self);
            lemma_mapping_holds_entry(self.entries@, i as int);
        }
        &self.entries[i].css
    }
}

} // verus!
