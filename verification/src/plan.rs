//! The download plan: a mapping from source URL to destination directory.
//! A URL is fetched at most once however many logical entries reference it,
//! so insertion of an already-present URL leaves the plan unchanged.

use vstd::prelude::*;

verus! {

/// The map a sequence of (url, dir) pairs denotes, later pairs shadowing
/// earlier ones with the same key.
pub open spec fn map_of_pairs(s: Seq<(String, String)>) -> Map<Seq<char>, Seq<char>>
    decreases s.len(),
{
    if s.len() == 0 {
        Map::empty()
    } else {
        map_of_pairs(s.drop_last()).insert(s.last().0@, s.last().1@)
    }
}

proof fn lemma_map_of_pairs_dom(s: Seq<(String, String)>)
    ensures
        forall|k: Seq<char>|
            map_of_pairs(s).dom().contains(k) <==> exists|i: int|
                0 <= i < s.len() && (#[trigger] s[i]).0@ == k,
    decreases s.len(),
{
    if s.len() > 0 {
        lemma_map_of_pairs_dom(s.drop_last());
        assert(map_of_pairs(s).dom() =~= map_of_pairs(s.drop_last()).dom().insert(s.last().0@));
        assert forall|k: Seq<char>| map_of_pairs(s).dom().contains(k) implies exists|i: int|
            0 <= i < s.len() && (#[trigger] s[i]).0@ == k by {
            if s.last().0@ == k {
                assert(s[s.len() - 1].0@ == k);
            } else {
                assert(map_of_pairs(s.drop_last()).dom().contains(k));
                let i = choose|i: int|
                    0 <= i < s.drop_last().len() && (#[trigger] s.drop_last()[i]).0@ == k;
                assert(s.drop_last()[i] == s[i]);
                assert(s[i].0@ == k);
            }
        }
        assert forall|k: Seq<char>|
            (exists|i: int| 0 <= i < s.len() && (#[trigger] s[i]).0@ == k) implies map_of_pairs(
            s,
        ).dom().contains(k) by {
            let i = choose|i: int| 0 <= i < s.len() && (#[trigger] s[i]).0@ == k;
            if i < s.len() - 1 {
                assert(s.drop_last()[i] == s[i]);
                assert(s.drop_last()[i].0@ == k);
                assert(map_of_pairs(s.drop_last()).dom().contains(k));
            }
        }
    }
}

/// The computed set of downloads that brings local storage in sync: for
/// each stale or missing entry, the source URL and the directory the fetched
/// file is written into. Viewed as a map keyed by URL.
pub struct DownloadPlan {
    entries: Vec<(String, String)>,
}

impl View for DownloadPlan {
    type V = Map<Seq<char>, Seq<char>>;

    closed spec fn view(&self) -> Map<Seq<char>, Seq<char>> {
        map_of_pairs(self.entries@)
    }
}

impl DownloadPlan {
    /// The stored pairs carry pairwise-distinct URLs, so their number is the
    /// number of planned downloads.
    pub closed spec fn wf(&self) -> bool {
        forall|i: int, j: int|
            0 <= i < j < self.entries@.len() ==> (#[trigger] self.entries@[i]).0@ != (
            #[trigger] self.entries@[j]).0@
    }

    pub fn new() -> (r: DownloadPlan)
        ensures
            r.wf(),
            r@ == Map::<Seq<char>, Seq<char>>::empty(),
    {
        DownloadPlan { entries: Vec::new() }
    }

    /// Whether `url` is already planned.
    pub fn contains_url(&self, url: &String) -> (r: bool)
        ensures
            r == self@.dom().contains(url@),
    {
        proof {
            lemma_map_of_pairs_dom(self.entries@);
        }
        let n = self.entries.len();
        let mut i: usize = 0;
        while i < n
            invariant
                0 <= i <= n,
                n == self.entries@.len(),
                forall|j: int| 0 <= j < i ==> (#[trigger] self.entries@[j]).0@ != url@,
                forall|k: Seq<char>|
                    map_of_pairs(self.entries@).dom().contains(k) <==> exists|j: int|
                        0 <= j < self.entries@.len() && (#[trigger] self.entries@[j]).0@ == k,
            decreases n - i,
        {
            if self.entries[i].0.eq(url) {
                return true;
            }
            i = i + 1;
        }
        false
    }

    /// Records that `url` must be fetched into `dir`. A URL already planned
    /// stays as it was: the same content is requested once.
    pub fn insert(&mut self, url: String, dir: String)
        requires
            old(self).wf(),
        ensures
            final(self).wf(),
            final(self)@ == if old(self)@.dom().contains(url@) {
                old(self)@
            } else {
                old(self)@.insert(url@, dir@)
            },
    {
        if !self.contains_url(&url) {
            proof {
                lemma_map_of_pairs_dom(self.entries@);
            }
            let ghost before = self.entries@;
            self.entries.push((url, dir));
            proof {
                assert(self.entries@.drop_last() =~= before);
            }
        }
    }

    /// How many downloads the plan holds.
    pub fn len(&self) -> (r: usize)
        requires
            self.wf(),
        ensures
            r == self@.dom().len(),
    {
        proof {
            lemma_unique_pairs_dom_len(self.entries@);
        }
        self.entries.len()
    }

    /// Whether nothing is left to fetch.
    pub fn is_empty(&self) -> (r: bool)
        requires
            self.wf(),
        ensures
            r == (self@ == Map::<Seq<char>, Seq<char>>::empty()),
    {
        proof {
            lemma_unique_pairs_dom_len(self.entries@);
            if self.entries@.len() == 0 {
                assert(self@ =~= Map::<Seq<char>, Seq<char>>::empty());
            } else {
                lemma_map_of_pairs_dom(self.entries@);
                assert(self@.dom().contains(self.entries@[0].0@));
            }
        }
        self.entries.len() == 0
    }

    /// The destination directory planned for `url`, if the URL is planned.
    pub fn get_dir(&self, url: &String) -> (r: Option<&String>)
        requires
            self.wf(),
        ensures
            match r {
                Some(d) => self@.dom().contains(url@) && self@[url@] == d@,
                None => !self@.dom().contains(url@),
            },
    {
        proof {
            lemma_map_of_pairs_dom(self.entries@);
            lemma_unique_pairs_value(self.entries@);
        }
        let n = self.entries.len();
        let mut i: usize = 0;
        while i < n
            invariant
                0 <= i <= n,
                n == self.entries@.len(),
                self.wf(),
                forall|j: int| 0 <= j < i ==> (#[trigger] self.entries@[j]).0@ != url@,
                forall|k: Seq<char>|
                    map_of_pairs(self.entries@).dom().contains(k) <==> exists|j: int|
                        0 <= j < self.entries@.len() && (#[trigger] self.entries@[j]).0@ == k,
                forall|j: int|
                    0 <= j < self.entries@.len() ==> map_of_pairs(self.entries@)[(
                    #[trigger] self.entries@[j]).0@] == self.entries@[j].1@,
            decreases n - i,
        {
            if self.entries[i].0.eq(url) {
                return Some(&self.entries[i].1);
            }
            i = i + 1;
        }
        None
    }

    /// The planned pairs, for a caller that executes the plan.
    pub fn entries(&self) -> (r: &Vec<(String, String)>)
        ensures
            map_of_pairs(r@) == self@,
            self.wf() ==> forall|i: int, j: int|
                0 <= i < j < r@.len() ==> (#[trigger] r@[i]).0@ != (#[trigger] r@[j]).0@,
    {
        &self.entries
    }
}

proof fn lemma_unique_pairs_dom_len(s: Seq<(String, String)>)
    requires
        forall|i: int, j: int| 0 <= i < j < s.len() ==> (#[trigger] s[i]).0@ != (#[trigger] s[j]).0@,
    ensures
        map_of_pairs(s).dom().len() == s.len(),
        map_of_pairs(s).dom().finite(),
    decreases s.len(),
{
    if s.len() == 0 {
        assert(map_of_pairs(s).dom() =~= Set::<Seq<char>>::empty());
    } else {
        lemma_unique_pairs_dom_len(s.drop_last());
        lemma_map_of_pairs_dom(s.drop_last());
        assert(!map_of_pairs(s.drop_last()).dom().contains(s.last().0@)) by {
            if map_of_pairs(s.drop_last()).dom().contains(s.last().0@) {
                let i = choose|i: int|
                    0 <= i < s.drop_last().len() && (#[trigger] s.drop_last()[i]).0@
                        == s.last().0@;
                assert(s[i].0@ == s[s.len() - 1].0@);
            }
        }
        assert(map_of_pairs(s).dom() =~= map_of_pairs(s.drop_last()).dom().insert(s.last().0@));
        vstd::set::axiom_set_insert_finite(map_of_pairs(s.drop_last()).dom(), s.last().0@);
        vstd::set::axiom_set_insert_len(map_of_pairs(s.drop_last()).dom(), s.last().0@);
    }
}

proof fn lemma_unique_pairs_value(s: Seq<(String, String)>)
    requires
        forall|i: int, j: int| 0 <= i < j < s.len() ==> (#[trigger] s[i]).0@ != (#[trigger] s[j]).0@,
    ensures
        forall|i: int| 0 <= i < s.len() ==> map_of_pairs(s)[(#[trigger] s[i]).0@] == s[i].1@,
    decreases s.len(),
{
    if s.len() > 0 {
        lemma_unique_pairs_value(s.drop_last());
        assert forall|i: int| 0 <= i < s.len() implies map_of_pairs(s)[(#[trigger] s[i]).0@]
            == s[i].1@ by {
            if i < s.len() - 1 {
                assert(s.drop_last()[i] == s[i]);
                assert(s[i].0@ != s[s.len() - 1].0@);
            }
        }
    }
}

} // verus!
