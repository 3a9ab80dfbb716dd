use vstd::prelude::*;
use vstd::hash_map::StringHashMap;

verus! {

/// The relationship map of one document: a finished, read-only mapping from
/// relationship identifier to target path or URL. Looking up an absent
/// identifier is an ordinary, recoverable outcome.
pub struct Rels {
    map: StringHashMap<String>,
}

impl View for Rels {
    type V = Map<Seq<char>, Seq<char>>;

    closed spec fn view(&self) -> Map<Seq<char>, Seq<char>> {
        Map::new(
            |k: Seq<char>| self.map@.contains_key(k),
            |k: Seq<char>| self.map@[k]@,
        )
    }
}

impl Rels {
    /// An empty relationship map.
    pub fn new() -> (r: Rels)
        ensures
            r@ == Map::<Seq<char>, Seq<char>>::empty(),
    {
        let r = Rels { map: StringHashMap::new() };
        proof {
            assert(r@ =~= Map::<Seq<char>, Seq<char>>::empty());
        }
        r
    }

    /// Binds `rel` to `target`, replacing any earlier binding of `rel`.
    pub fn insert(&mut self, rel: String, target: String)
        ensures
            final(self)@ == old(self)@.insert(rel@, target@),
    {
        let ghost r = rel@;
        let ghost t = target@;
        self.map.insert(rel, target);
        proof {
            assert(self@ =~= old(self)@.insert(r, t));
        }
    }

    /// The target bound to `rel`, if any.
    pub fn get<'a>(&'a self, rel: &str) -> (r: Option<&'a String>)
        ensures
            match r {
                Some(v) => self@.contains_key(rel@) && v@ == self@[rel@],
                None => !self@.contains_key(rel@),
            },
    {
        self.map.get(rel)
    }

    /// Whether `rel` is bound.
    pub fn contains_key(&self, rel: &str) -> (r: bool)
        ensures
            r == self@.contains_key(rel@),
    {
        self.map.contains_key(rel)
    }

    /// The number of bindings.
    pub fn len(&self) -> (r: usize)
        ensures
            r == self@.dom().len(),
    {
        let r = self.map.len();
        proof {
            assert(self@.dom() =~= self.map@.dom());
        }
        r
    }
}

} // verus!
