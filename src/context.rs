//! The build context: a string-keyed table in which the last write of a key wins.
use vstd::prelude::*;

verus! {

/// The table that a sequence of writes leaves: each write of a key replaces
/// what an earlier one put there.
pub open spec fn map_of(s: Seq<(String, String)>) -> Map<Seq<char>, Seq<char>>
    decreases s.len(),
{
    if s.len() == 0 {
        Map::empty()
    } else {
        map_of(s.drop_last()).insert(s.last().0@, s.last().1@)
    }
}

/// Writing `b` after `a` leaves `a`'s table overridden by `b`'s.
pub proof fn lemma_map_of_concat(a: Seq<(String, String)>, b: Seq<(String, String)>)
    ensures
        map_of(a + b) == map_of(a).union_prefer_right(map_of(b)),
    decreases b.len(),
{
    if b.len() == 0 {
        assert(a + b =~= a);
        assert(map_of(a).union_prefer_right(map_of(b)) =~= map_of(a));
    } else {
        assert((a + b).drop_last() =~= a + b.drop_last());
        lemma_map_of_concat(a, b.drop_last());
        assert(map_of(a + b) =~= map_of(a).union_prefer_right(map_of(b)));
    }
}

/// A string-keyed table of strings. It holds the build context, and the
/// contents of the input files by path.
pub struct Context {
    entries: Vec<(String, String)>,
}

impl View for Context {
    type V = Map<Seq<char>, Seq<char>>;

    closed spec fn view(&self) -> Map<Seq<char>, Seq<char>> {
        map_of(self.entries@)
    }
}

impl Context {
    /// The empty table.
    pub fn new() -> (r: Context)
        ensures
            r@ == Map::<Seq<char>, Seq<char>>::empty(),
    {
        Context { entries: Vec::new() }
    }

    /// The writes, in order, that make up this table.
    pub fn entries(&self) -> (r: &Vec<(String, String)>)
        ensures
            map_of(r@) == self@,
    {
        &self.entries
    }

    /// The value stored under `key`.
    pub fn get(&self, key: &str) -> (r: Option<&String>)
        ensures
            match r {
                Some(v) => self@.contains_key(key@) && self@[key@] == v@,
                None => !self@.contains_key(key@),
            },
    {
        let k = key.to_string();
        let n = self.entries.len();
        let mut found: Option<usize> = None;
        let mut i: usize = 0;
        while i < n
            invariant
                i <= n,
                n == self.entries@.len(),
                k@ == key@,
                match found {
                    Some(j) => j < i && map_of(self.entries@.take(i as int)).contains_key(k@)
                        && map_of(self.entries@.take(i as int))[k@] == self.entries@[j as int].1@,
                    None => !map_of(self.entries@.take(i as int)).contains_key(k@),
                },
            decreases n - i,
        {
            assert(self.entries@.take(i + 1).drop_last() =~= self.entries@.take(i as int));
            if self.entries[i].0 == k {
                found = Some(i);
            }
            i = i + 1;
        }
        assert(self.entries@.take(n as int) =~= self.entries@);
        match found {
            Some(j) => Some(&self.entries[j].1),
            None => None,
        }
    }

    /// Stores `value` under `key`, replacing what was there.
    pub fn insert(&mut self, key: String, value: String)
        ensures
            final(self)@ == old(self)@.insert(key@, value@),
    {
        self.entries.push((key, value));
        assert(self.entries@.drop_last() =~= old(self).entries@);
    }

    /// Stores every pair of `pairs`, in order; a key written here replaces what
    /// the table held.
    pub fn merge(&mut self, pairs: Vec<(String, String)>)
        ensures
            final(self)@ == old(self)@.union_prefer_right(map_of(pairs@)),
    {
        let ghost before = self.entries@;
        let ghost added = pairs@;
        let mut pairs = pairs;
        self.entries.append(&mut pairs);
        proof {
            lemma_map_of_concat(before, added);
        }
    }
}

/// After two merges, a key that the second one writes holds the second one's
/// value, whatever the first one wrote.
pub proof fn lemma_later_merge_wins(
    ctx: Map<Seq<char>, Seq<char>>,
    first: Map<Seq<char>, Seq<char>>,
    second: Map<Seq<char>, Seq<char>>,
    key: Seq<char>,
)
    requires
        second.contains_key(key),
    ensures
        ctx.union_prefer_right(first).union_prefer_right(second)[key] == second[key],
{
}

} // verus!
