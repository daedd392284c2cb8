//! The name-to-image map and its merge.

use std::collections::BTreeMap;
use vstd::prelude::*;

verus! {

/// The error of the JSON encoder, carried through unread.
#[verifier::external_type_specification]
#[verifier::external_body]
pub struct ExJsonError(serde_json::Error);

/// The compact JSON object that the encoder writes for a map of texts, its
/// members in the order of their names; `None` where the encoder refuses.
pub uninterp spec fn json_object_text(entries: Map<Seq<char>, Seq<char>>) -> Option<Seq<char>>;

/// The map that a run of pairs stands for: the pairs are entered from the
/// first to the last, so a later pair replaces an earlier one of the same
/// name.
pub open spec fn pairs_view(pairs: Seq<(String, String)>) -> Map<Seq<char>, Seq<char>>
    decreases pairs.len(),
{
    if pairs.len() == 0 {
        Map::empty()
    } else {
        pairs_view(pairs.drop_last()).insert(pairs.last().0@, pairs.last().1@)
    }
}

/// `a` with every entry of `b` added, `b` winning where both hold a name.
pub open spec fn merged(a: Map<Seq<char>, Seq<char>>, b: Map<Seq<char>, Seq<char>>) -> Map<
    Seq<char>,
    Seq<char>,
> {
    a.union_prefer_right(b)
}

/// No two pairs have the same name.
spec fn distinct_names(pairs: Seq<(String, String)>) -> bool {
    forall|i: int, j: int| 0 <= i < j < pairs.len() ==> pairs[i].0@ != pairs[j].0@
}

/// A name is a key of the map of some pairs exactly if one of them has it.
pub proof fn lemma_pairs_keys(pairs: Seq<(String, String)>, k: Seq<char>)
    ensures
        pairs_view(pairs).contains_key(k) <==> exists|i: int|
            0 <= i < pairs.len() && (#[trigger] pairs[i]).0@ == k,
    decreases pairs.len(),
{
    if pairs.len() > 0 {
        let rest = pairs.drop_last();
        lemma_pairs_keys(rest, k);
        if pairs_view(pairs).contains_key(k) {
            if pairs.last().0@ == k {
                assert(pairs[pairs.len() - 1].0@ == k);
            } else {
                let i = choose|i: int| 0 <= i < rest.len() && (#[trigger] rest[i]).0@ == k;
                assert(pairs[i].0@ == k);
            }
        }
        if exists|i: int| 0 <= i < pairs.len() && (#[trigger] pairs[i]).0@ == k {
            let i = choose|i: int| 0 <= i < pairs.len() && (#[trigger] pairs[i]).0@ == k;
            if i < rest.len() {
                assert(rest[i].0@ == k);
            }
        }
    }
}

/// The image under a name is that of the last pair with this name.
pub proof fn lemma_pairs_last_wins(pairs: Seq<(String, String)>, i: int)
    requires
        0 <= i < pairs.len(),
        forall|j: int| i < j < pairs.len() ==> (#[trigger] pairs[j]).0@ != pairs[i].0@,
    ensures
        pairs_view(pairs).contains_key(pairs[i].0@),
        pairs_view(pairs)[pairs[i].0@] == pairs[i].1@,
    decreases pairs.len(),
{
    let last = pairs.len() - 1;
    if i < last {
        let rest = pairs.drop_last();
        assert(rest[i] == pairs[i]);
        assert forall|j: int| i < j < rest.len() implies (#[trigger] rest[j]).0@ != rest[i].0@ by {
            assert(rest[j] == pairs[j]);
        }
        lemma_pairs_last_wins(rest, i);
        assert(pairs[last].0@ != pairs[i].0@);
    }
}

/// Without its last pair a run of distinct names is one still.
proof fn lemma_distinct_drop_last(pairs: Seq<(String, String)>)
    requires
        distinct_names(pairs),
        pairs.len() > 0,
    ensures
        distinct_names(pairs.drop_last()),
{
    let rest = pairs.drop_last();
    assert forall|a: int, b: int| 0 <= a < b < rest.len() implies rest[a].0@ != rest[b].0@ by {
        assert(rest[a] == pairs[a] && rest[b] == pairs[b]);
    }
}

/// Where the names are distinct, a new pair in the place of one with the same
/// name is an insert.
proof fn lemma_pairs_update(pairs: Seq<(String, String)>, i: int, pair: (String, String))
    requires
        distinct_names(pairs),
        0 <= i < pairs.len(),
        pair.0@ == pairs[i].0@,
    ensures
        distinct_names(pairs.update(i, pair)),
        pairs_view(pairs.update(i, pair)) == pairs_view(pairs).insert(pair.0@, pair.1@),
    decreases pairs.len(),
{
    let rest = pairs.drop_last();
    let last = pairs.len() - 1;
    let changed = pairs.update(i, pair);
    assert forall|a: int, b: int| 0 <= a < b < changed.len() implies changed[a].0@
        != changed[b].0@ by {
        assert(changed[a].0@ == pairs[a].0@ && changed[b].0@ == pairs[b].0@);
    }
    if i < last {
        lemma_distinct_drop_last(pairs);
        assert(rest[i] == pairs[i]);
        lemma_pairs_update(rest, i, pair);
        assert(changed.drop_last() == rest.update(i, pair));
        assert(pairs[i].0@ != pairs[last].0@);
        assert(pairs_view(changed) == pairs_view(pairs).insert(pair.0@, pair.1@));
    } else {
        assert(changed.drop_last() == rest);
        assert(pairs_view(changed) == pairs_view(pairs).insert(pair.0@, pair.1@));
    }
}

/// Distinct names give a map with one key for each pair.
proof fn lemma_pairs_size(pairs: Seq<(String, String)>)
    requires
        distinct_names(pairs),
    ensures
        pairs_view(pairs).dom().finite(),
        pairs_view(pairs).dom().len() == pairs.len(),
    decreases pairs.len(),
{
    if pairs.len() > 0 {
        let rest = pairs.drop_last();
        lemma_distinct_drop_last(pairs);
        lemma_pairs_size(rest);
        lemma_pairs_keys(rest, pairs.last().0@);
        if pairs_view(rest).contains_key(pairs.last().0@) {
            let i = choose|i: int| 0 <= i < rest.len() && (#[trigger] rest[i]).0@ == pairs.last().0@;
            assert(rest[i] == pairs[i]);
            assert(false);
        }
    }
}

/// A mapping from emoji short name to image reference, each name held once.
/// The image is an address or, for an alias, a text such as `alias:other`.
#[derive(Debug)]
pub struct EmojiMap {
    entries: Vec<(String, String)>,
}

impl View for EmojiMap {
    type V = Map<Seq<char>, Seq<char>>;

    closed spec fn view(&self) -> Map<Seq<char>, Seq<char>> {
        pairs_view(self.entries@)
    }
}

impl EmojiMap {
    /// What every map keeps: no name stands at two positions.
    #[verifier::type_invariant]
    spec fn names_held_once(&self) -> bool {
        distinct_names(self.entries@)
    }

    /// The number of positions at which the map holds an entry.
    pub closed spec fn spec_len(&self) -> nat {
        self.entries@.len()
    }

    /// The name at a position.
    pub closed spec fn spec_name(&self, i: int) -> Seq<char> {
        self.entries@[i].0@
    }

    /// The image at a position.
    pub closed spec fn spec_url(&self, i: int) -> Seq<char> {
        self.entries@[i].1@
    }

    /// The empty map.
    pub fn new() -> (m: EmojiMap)
        ensures
            m@ == Map::<Seq<char>, Seq<char>>::empty(),
    {
        EmojiMap { entries: Vec::new() }
    }

    /// The number of entries. The positions below it hold the entries of the
    /// map, each one once.
    pub fn len(&self) -> (n: usize)
        ensures
            self@.dom().finite(),
            n == self@.dom().len(),
            n == self.spec_len(),
            forall|i: int|
                0 <= i < n ==> self@.contains_key(#[trigger] self.spec_name(i))
                    && self@[self.spec_name(i)] == self.spec_url(i),
            forall|i: int, j: int| 0 <= i < j < n ==> self.spec_name(i) != self.spec_name(j),
            forall|k: Seq<char>| #[trigger]
                self@.contains_key(k) ==> exists|i: int|
                    0 <= i < n && #[trigger] self.spec_name(i) == k,
    {
        proof {
            use_type_invariant(self);
            lemma_pairs_size(self.entries@);
            assert forall|i: int| 0 <= i < self.entries@.len() implies self@.contains_key(
                #[trigger] self.spec_name(i),
            ) && self@[self.spec_name(i)] == self.spec_url(i) by {
                lemma_pairs_last_wins(self.entries@, i);
            }
            assert forall|k: Seq<char>| #[trigger] self@.contains_key(k) implies exists|i: int|
                0 <= i < self.entries@.len() && #[trigger] self.spec_name(i) == k by {
                lemma_pairs_keys(self.entries@, k);
                let i = choose|i: int|
                    0 <= i < self.entries@.len() && (#[trigger] self.entries@[i]).0@ == k;
                assert(self.spec_name(i) == k);
            }
        }
        self.entries.len()
    }

    /// Whether the map holds no entry.
    pub fn is_empty(&self) -> (b: bool)
        ensures
            b == (self@ == Map::<Seq<char>, Seq<char>>::empty()),
    {
        proof {
            if self.entries@.len() > 0 {
                lemma_pairs_last_wins(self.entries@, self.entries@.len() - 1);
            }
        }
        self.entries.len() == 0
    }

    /// The position of a name, if the map holds it.
    fn position(&self, name: &String) -> (r: Option<usize>)
        ensures
            match r {
                Some(i) => i < self.entries@.len() && self.entries@[i as int].0@ == name@
                    && self@.contains_key(name@) && self@[name@] == self.entries@[i as int].1@,
                None => !self@.contains_key(name@),
            },
    {
        let mut i: usize = 0;
        while i < self.entries.len()
            invariant
                i <= self.entries@.len(),
                forall|j: int| 0 <= j < i ==> (#[trigger] self.entries@[j]).0@ != name@,
            decreases self.entries@.len() - i,
        {
            if self.entries[i].0 == *name {
                proof {
                    use_type_invariant(self);
                    lemma_pairs_last_wins(self.entries@, i as int);
                }
                return Some(i);
            }
            i += 1;
        }
        proof {
            lemma_pairs_keys(self.entries@, name@);
        }
        None
    }

    /// Whether the map holds the name.
    pub fn contains_key(&self, name: &str) -> (b: bool)
        ensures
            b == self@.contains_key(name@),
    {
        let key = String::from_str(name);
        self.position(&key).is_some()
    }

    /// The image held under a name.
    pub fn get(&self, name: &str) -> (r: Option<&String>)
        ensures
            match r {
                Some(url) => self@.contains_key(name@) && self@[name@] == url@,
                None => !self@.contains_key(name@),
            },
    {
        let key = String::from_str(name);
        match self.position(&key) {
            Some(i) => Some(&self.entries[i].1),
            None => None,
        }
    }

    /// The name at position `i`.
    pub fn name_at(&self, i: usize) -> (name: &String)
        requires
            i < self.spec_len(),
        ensures
            name@ == self.spec_name(i as int),
    {
        &self.entries[i].0
    }

    /// The image at position `i`.
    pub fn url_at(&self, i: usize) -> (url: &String)
        requires
            i < self.spec_len(),
        ensures
            url@ == self.spec_url(i as int),
    {
        &self.entries[i].1
    }

    /// Enters a pair: a name that the map holds gets the new image, another is
    /// added.
    pub fn insert(&mut self, name: String, url: String)
        ensures
            final(self)@ == old(self)@.insert(name@, url@),
    {
        let found = self.position(&name);
        // The entries are taken out, changed and put back, so that the map
        // holds each name once at every step.
        let mut held = EmojiMap::new();
        core::mem::swap(self, &mut held);
        proof {
            use_type_invariant(&held);
        }
        let mut entries = held.entries;
        match found {
            Some(i) => {
                proof {
                    lemma_pairs_update(entries@, i as int, (name, url));
                }
                entries[i] = (name, url);
            },
            None => {
                proof {
                    lemma_pairs_keys(entries@, name@);
                    let grown = entries@.push((name, url));
                    assert(grown.drop_last() == entries@);
                    assert forall|a: int, b: int| 0 <= a < b < grown.len() implies grown[a].0@
                        != grown[b].0@ by {
                        assert(grown[a] == entries@[a]);
                    }
                }
                entries.push((name, url));
            },
        }
        *self = EmojiMap { entries };
    }

    /// Collects pairs of name and image into a map; of two pairs with one name
    /// the later one stays.
    pub fn from_pairs(pairs: &Vec<(String, String)>) -> (m: EmojiMap)
        ensures
            m@ == pairs_view(pairs@),
    {
        let mut m = EmojiMap::new();
        let mut i: usize = 0;
        while i < pairs.len()
            invariant
                i <= pairs@.len(),
                m@ == pairs_view(pairs@.take(i as int)),
            decreases pairs@.len() - i,
        {
            proof {
                assert(pairs@.take(i + 1).drop_last() == pairs@.take(i as int));
            }
            m.insert(pairs[i].0.clone(), pairs[i].1.clone());
            i += 1;
        }
        proof {
            assert(pairs@.take(pairs@.len() as int) == pairs@);
        }
        m
    }

    /// Encodes the map as one compact JSON object of name and image texts.
    pub fn to_json(&self) -> (text: Option<String>)
        ensures
            match text {
                Some(t) => json_object_text(self@) == Some(t@),
                None => json_object_text(self@).is_none(),
            },
    {
        match encode_entries(self) {
            Ok(t) => Some(t),
            Err(_) => None,
        }
    }
}

impl Clone for EmojiMap {
    /// A map with the same entries.
    fn clone(&self) -> (copy: EmojiMap)
        ensures
            copy@ == self@,
    {
        EmojiMap::from_pairs(&self.entries)
    }
}

/// Calls `serde_json::to_string` on the entries, handed over as a
/// `BTreeMap` of string slices. Believed of it: the text it returns, or its
/// refusal, depends on the entries alone, and is what `json_object_text`
/// names.
#[verifier::external_body]
fn encode_entries(map: &EmojiMap) -> (r: Result<String, serde_json::Error>)
    ensures
        match r {
            Ok(t) => json_object_text(map@) == Some(t@),
            Err(_) => json_object_text(map@).is_none(),
        },
{
    let entries: BTreeMap<&str, &str> = map.entries.iter().map(
        |e| (e.0.as_str(), e.1.as_str()),
    ).collect();
    serde_json::to_string(&entries)
}

/// Adds every entry of `secondary` to `primary`; where both hold a name, the
/// image of `secondary` stays.
pub fn merge(primary: EmojiMap, secondary: &EmojiMap) -> (out: EmojiMap)
    ensures
        out@ == merged(primary@, secondary@),
        forall|k: Seq<char>|
            out@.contains_key(k) <==> primary@.contains_key(k) || secondary@.contains_key(k),
        forall|k: Seq<char>| secondary@.contains_key(k) ==> out@[k] == secondary@[k],
        forall|k: Seq<char>|
            primary@.contains_key(k) && !secondary@.contains_key(k) ==> out@[k] == primary@[k],
{
    let ghost start = primary@;
    let mut out = primary;
    let mut i: usize = 0;
    while i < secondary.entries.len()
        invariant
            i <= secondary.entries@.len(),
            out@ == merged(start, pairs_view(secondary.entries@.take(i as int))),
        decreases secondary.entries@.len() - i,
    {
        proof {
            assert(secondary.entries@.take(i + 1).drop_last() == secondary.entries@.take(i as int));
        }
        out.insert(secondary.entries[i].0.clone(), secondary.entries[i].1.clone());
        i += 1;
    }
    proof {
        assert(secondary.entries@.take(secondary.entries@.len() as int) == secondary.entries@);
    }
    out
}

/// A name of the merged map is a name of either map; it holds the secondary
/// map's image where that map has the name, and the primary map's otherwise.
pub proof fn lemma_merge_lookup(
    a: Map<Seq<char>, Seq<char>>,
    b: Map<Seq<char>, Seq<char>>,
    k: Seq<char>,
)
    ensures
        merged(a, b).contains_key(k) <==> a.contains_key(k) || b.contains_key(k),
        merged(a, b).contains_key(k) ==> merged(a, b)[k] == if b.contains_key(k) {
            b[k]
        } else {
            a[k]
        },
{
}

/// Merging the empty map into a map leaves that map as it is.
pub proof fn lemma_merge_empty(a: Map<Seq<char>, Seq<char>>)
    ensures
        merged(a, Map::empty()) == a,
{
    assert(merged(a, Map::empty()) =~= a);
}

} // verus!
