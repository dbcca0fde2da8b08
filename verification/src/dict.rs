//! A mapping from variable name to value, used both for lexical environments
//! and for the memoization cache. Backed by an association list; its ghost
//! view is the `Map` in which later insertions shadow earlier ones.

use vstd::prelude::*;
use crate::value::{ValV, Value};

verus! {

/// A name-to-value mapping whose view is a `Map<Seq<char>, ValV>`.
pub struct Dict<'a> {
    pub pairs: Vec<(String, Value<'a>)>,
}

pub open spec fn dict_view(s: Seq<(String, Value)>) -> Map<Seq<char>, ValV>
    decreases s,
{
    if s.len() == 0 {
        Map::empty()
    } else {
        dict_view(s.drop_last()).insert(s.last().0@, s.last().1@)
    }
}

impl<'a> View for Dict<'a> {
    type V = Map<Seq<char>, ValV>;

    open spec fn view(&self) -> Map<Seq<char>, ValV> {
        dict_view(self.pairs@)
    }
}

/// Entries at or after position `i` whose key differs from `k` do not affect
/// the binding of `k`.
proof fn lemma_dict_prefix(s: Seq<(String, Value)>, i: int, k: Seq<char>)
    requires
        0 <= i <= s.len(),
        forall|j: int| i <= j < s.len() ==> (#[trigger] s[j]).0@ != k,
    ensures
        dict_view(s).contains_key(k) == dict_view(s.take(i)).contains_key(k),
        dict_view(s).contains_key(k) ==> dict_view(s)[k] == dict_view(s.take(i))[k],
    decreases s.len() - i,
{
    if i == s.len() {
        assert(s.take(i) =~= s);
    } else {
        lemma_dict_prefix(s, i + 1, k);
        let t = s.take(i + 1);
        assert(t.drop_last() =~= s.take(i));
        assert(t.last() == s[i]);
        assert(dict_view(t) == dict_view(s.take(i)).insert(s[i].0@, s[i].1@));
    }
}

impl<'a> Dict<'a> {
    /// An empty mapping.
    pub fn new() -> (d: Dict<'a>)
        ensures
            d@ == Map::<Seq<char>, ValV>::empty(),
    {
        Dict { pairs: Vec::new() }
    }

    /// Binds `name` to `v`, shadowing any earlier binding of the same name.
    pub fn insert(&mut self, name: String, v: Value<'a>)
        ensures
            final(self)@ == old(self)@.insert(name@, v@),
    {
        let ghost gname = name@;
        let ghost gv = v@;
        let ghost s0 = self.pairs@;
        self.pairs.push((name, v));
        proof {
            let s1 = self.pairs@;
            assert(s1.drop_last() =~= s0);
            assert(s1.last().0@ == gname && s1.last().1@ == gv);
        }
    }

    /// Looks the name up: the most recent binding wins.
    pub fn get(&self, name: &String) -> (r: Option<&Value<'a>>)
        ensures
            match r {
                Some(v) => self@.contains_key(name@) && self@[name@] == v@,
                None => !self@.contains_key(name@),
            },
    {
        let n = self.pairs.len();
        let mut i: usize = n;
        while i > 0
            invariant
                i <= n,
                n == self.pairs.len(),
                forall|j: int| i <= j < n ==> (#[trigger] self.pairs@[j]).0@ != name@,
            decreases i,
        {
            i = i - 1;
            let hit = {
                let pair = &self.pairs[i];
                pair.0 == *name
            };
            if hit {
                proof {
                    let s = self.pairs@;
                    lemma_dict_prefix(s, i + 1, name@);
                    let t = s.take(i + 1);
                    assert(t.drop_last() =~= s.take(i as int));
                    assert(t.last() == s[i as int]);
                }
                return Some(&self.pairs[i].1);
            }
        }
        proof {
            lemma_dict_prefix(self.pairs@, 0, name@);
            assert(self.pairs@.take(0) =~= Seq::<(String, Value)>::empty());
        }
        None
    }

    /// A structural copy with the same view.
    pub fn duplicate(&self) -> (r: Dict<'a>)
        ensures
            r@ == self@,
    {
        let n = self.pairs.len();
        let mut out: Vec<(String, Value<'a>)> = Vec::new();
        let mut i: usize = 0;
        while i < n
            invariant
                i <= n,
                n == self.pairs.len(),
                out@ =~= self.pairs@.take(i as int),
            decreases n - i,
        {
            let pair = &self.pairs[i];
            out.push((pair.0.clone(), pair.1.duplicate()));
            proof {
                assert(out@ =~= self.pairs@.take(i + 1));
            }
            i = i + 1;
        }
        proof {
            assert(self.pairs@.take(n as int) =~= self.pairs@);
        }
        Dict { pairs: out }
    }
}

} // verus!
