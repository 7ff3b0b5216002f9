//! The icon cache: application identifiers mapped to the icon path the
//! desktop-file search found for them. The search itself walks the
//! filesystem and stays with the caller; this cache only remembers its
//! results so each identifier is searched at most once.

use vstd::prelude::*;

use crate::text::str_eq;

verus! {

/// The cached icon path for `app_id`: the first entry whose key equals
/// it (`store` never adds a second entry for a cached identifier, so
/// keys stay distinct).
pub open spec fn spec_icon_lookup(entries: Seq<(String, String)>, app_id: Seq<char>) -> Option<
    Seq<char>,
>
    decreases entries.len(),
{
    if entries.len() == 0 {
        None
    } else if entries[0].0@ == app_id {
        Some(entries[0].1@)
    } else {
        spec_icon_lookup(entries.drop_first(), app_id)
    }
}

proof fn lemma_icon_lookup_push(s: Seq<(String, String)>, e: (String, String), k: Seq<char>)
    requires
        spec_icon_lookup(s, k) is None,
        e.0@ == k,
    ensures
        spec_icon_lookup(s.push(e), k) == Some(e.1@),
    decreases s.len(),
{
    if s.len() == 0 {
        assert(s.push(e)[0] == e);
    } else {
        assert(s.push(e)[0] == s[0]);
        assert(s.push(e).drop_first() =~= s.drop_first().push(e));
        lemma_icon_lookup_push(s.drop_first(), e, k);
    }
}

/// A cache of resolved icon paths, keyed by application identifier.
pub struct IconResolver {
    entries: Vec<(String, String)>,
}

impl View for IconResolver {
    type V = Seq<(String, String)>;

    closed spec fn view(&self) -> Seq<(String, String)> {
        self.entries@
    }
}

impl IconResolver {
    /// An empty cache.
    pub fn new() -> (r: Self)
        ensures
            r@.len() == 0,
    {
        IconResolver { entries: Vec::new() }
    }

    /// The icon path cached for `app_id`, if any.
    pub fn resolve(&self, app_id: &str) -> (r: Option<String>)
        ensures
            match r {
                Some(p) => spec_icon_lookup(self@, app_id@) == Some(p@),
                None => spec_icon_lookup(self@, app_id@) is None,
            },
    {
        let n = self.entries.len();
        let mut i: usize = 0;
        proof {
            assert(self.entries@.skip(0) =~= self.entries@);
        }
        while i < n
            invariant
                i <= n,
                n == self.entries@.len(),
                self.entries@ == self@,
                spec_icon_lookup(self@, app_id@) == spec_icon_lookup(
                    self.entries@.skip(i as int),
                    app_id@,
                ),
            decreases n - i,
        {
            proof {
                assert(self.entries@.skip(i as int)[0] == self.entries@[i as int]);
                assert(self.entries@.skip(i as int).drop_first() =~= self.entries@.skip(
                    i + 1 as int,
                ));
            }
            if str_eq(self.entries[i].0.as_str(), app_id) {
                return Some(self.entries[i].1.clone());
            }
            i = i + 1;
        }
        proof {
            assert(self.entries@.skip(n as int) =~= Seq::<(String, String)>::empty());
        }
        None
    }

    /// Remember a search result. A result for an identifier already
    /// cached is ignored: the first one stands.
    pub fn store(&mut self, app_id: &str, path: &str)
        ensures
            spec_icon_lookup(old(self)@, app_id@) is Some ==> final(self)@ == old(self)@,
            spec_icon_lookup(old(self)@, app_id@) is None ==> {
                &&& spec_icon_lookup(final(self)@, app_id@) == Some(path@)
                &&& final(self)@.len() == old(self)@.len() + 1
                &&& forall|j: int| 0 <= j < old(self)@.len() ==> final(self)@[j] == old(self)@[j]
            },
    {
        match self.resolve(app_id) {
            Some(_) => {
            },
            None => {
                let key = app_id.to_owned();
                let value = path.to_owned();
                proof {
                    lemma_icon_lookup_push(self.entries@, (key, value), app_id@);
                }
                self.entries.push((key, value));
            },
        }
    }
}

} // verus!
