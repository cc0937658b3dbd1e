//! Tags and the names of per-edge features, as the engine sees them.
//!
//! A tag is a key and a value attached to a map feature. Profiles name
//! both as text; the compiler replaces each text by the compact id that
//! the dictionary gives it, and evaluation compares ids only.

use vstd::prelude::*;
use vstd::hash_map::StringHashMap;
use crate::text::same_text;

verus! {

/// The compact id of a tag key or a tag value.
pub type TagDictId = u32;

/// The id that stands for every text the dictionary does not hold. No
/// text is ever given this id.
pub const UNKNOWN_TAG_ID: TagDictId = 0;

/// The largest number of texts a dictionary holds.
pub const TAG_DICT_CAPACITY: usize = 0xFFFF_FFFE;

/// The id of `text` in a dictionary that holds `texts`: its position,
/// counted from one, or `UNKNOWN_TAG_ID` where the dictionary lacks it.
pub open spec fn compact(texts: Seq<Seq<char>>, text: Seq<char>) -> TagDictId {
    if texts.contains(text) {
        (texts.index_of(text) + 1) as TagDictId
    } else {
        UNKNOWN_TAG_ID
    }
}

/// Whether these can be the tags of a feature: no feature has a tag under
/// the id that stands for the unknown.
pub open spec fn valid_tags(tags: Map<TagDictId, TagDictId>) -> bool {
    !tags.dom().contains(UNKNOWN_TAG_ID)
}

/// In a sequence without duplicates, the position of an element is the
/// one place where it stands.
pub proof fn lemma_position_is_unique(texts: Seq<Seq<char>>, i: int)
    requires
        texts.no_duplicates(),
        0 <= i < texts.len(),
    ensures
        texts.contains(texts[i]),
        texts.index_of(texts[i]) == i,
{
}

/// Interns texts: each distinct text gets the next id, starting at one.
pub struct TagDict {
    texts: Vec<String>,
}

impl View for TagDict {
    type V = Seq<Seq<char>>;

    /// The texts held, in the order of their ids.
    closed spec fn view(&self) -> Seq<Seq<char>> {
        Seq::new(self.texts@.len(), |i: int| self.texts@[i]@)
    }
}

impl TagDict {
    /// A dictionary holds each text once and stays within its capacity.
    pub open spec fn wf(&self) -> bool {
        &&& self@.no_duplicates()
        &&& self@.len() <= TAG_DICT_CAPACITY
    }

    pub fn new() -> (r: Self)
        ensures
            r.wf(),
            r@ == Seq::<Seq<char>>::empty(),
    {
        let r = TagDict { texts: Vec::new() };
        r
    }

    /// The number of texts held.
    pub fn len(&self) -> (r: usize)
        ensures
            r == self@.len(),
    {
        self.texts.len()
    }

    /// The position of `text`, if the dictionary holds it.
    fn find(&self, text: &str) -> (r: Option<usize>)
        ensures
            match r {
                Some(i) => i < self@.len() && self@[i as int] == text@,
                None => !self@.contains(text@),
            },
    {
        let mut i: usize = 0;
        while i < self.texts.len()
            invariant
                i <= self.texts@.len(),
                forall|j: int| 0 <= j < i ==> self@[j] != text@,
            decreases self.texts@.len() - i,
        {
            if same_text(self.texts[i].as_str(), text) {
                return Some(i);
            }
            i += 1;
        }
        None
    }

    /// The id of `text`, or `None` where the dictionary does not hold it.
    pub fn to_compact(&self, text: &str) -> (r: Option<TagDictId>)
        requires
            self.wf(),
        ensures
            r == (if self@.contains(text@) {
                Some(compact(self@, text@))
            } else {
                None
            }),
            r != Some(UNKNOWN_TAG_ID),
    {
        match self.find(text) {
            Some(i) => {
                proof {
                    lemma_position_is_unique(self@, i as int);
                }
                Some((i + 1) as TagDictId)
            },
            None => None,
        }
    }

    /// The text that has the id `id`, or `None` where no text has it.
    pub fn from_compact(&self, id: TagDictId) -> (r: Option<&String>)
        ensures
            match r {
                Some(text) => 0 < id <= self@.len() && text@ == self@[id - 1],
                None => id == UNKNOWN_TAG_ID || id > self@.len(),
            },
    {
        if id == 0 || id as usize > self.texts.len() {
            None
        } else {
            Some(&self.texts[id as usize - 1])
        }
    }

    /// Gives `text` an id. A text that is held keeps its id; a new one
    /// gets the next id, and the texts held before keep theirs. A full
    /// dictionary takes no new text and answers `UNKNOWN_TAG_ID`.
    pub fn insert(&mut self, text: String) -> (id: TagDictId)
        requires
            old(self).wf(),
        ensures
            final(self).wf(),
            final(self)@ == (if old(self)@.contains(text@) || old(self)@.len()
                >= TAG_DICT_CAPACITY {
                old(self)@
            } else {
                old(self)@.push(text@)
            }),
            id == compact(final(self)@, text@),
    {
        match self.find(text.as_str()) {
            Some(i) => {
                proof {
                    lemma_position_is_unique(self@, i as int);
                }
                (i + 1) as TagDictId
            },
            None => {
                let n = self.texts.len();
                if n >= TAG_DICT_CAPACITY {
                    UNKNOWN_TAG_ID
                } else {
                    let ghost before = self@;
                    self.texts.push(text);
                    proof {
                        assert forall|a: int, b: int|
                            0 <= a < self@.len() && 0 <= b < self@.len() && a != b implies self@[a]
                            != self@[b] by {
                            if a < n && b < n {
                                assert(before[a] != before[b]);
                            } else if a < n {
                                assert(before.contains(before[a]));
                            } else {
                                assert(before.contains(before[b]));
                            }
                        }
                        lemma_position_is_unique(self@, n as int);
                    }
                    (n + 1) as TagDictId
                }
            },
        }
    }
}

/// The tags of one map feature, by compact ids.
pub trait TagSource {
    /// The feature's tags: each key that it has, with the value under it.
    spec fn tags(&self) -> Map<TagDictId, TagDictId>;

    /// No feature has a tag under the id that stands for the unknown.
    proof fn lemma_valid(&self)
        ensures
            valid_tags(self.tags()),
    ;

    /// Whether the feature has a tag with this key.
    fn has_tag(&self, key: TagDictId) -> (r: bool)
        ensures
            r == self.tags().dom().contains(key),
    ;

    /// The value under this key, if the feature has the key.
    fn get_tag(&self, key: TagDictId) -> (r: Option<TagDictId>)
        ensures
            r == (if self.tags().dom().contains(key) {
                Some(self.tags()[key])
            } else {
                None
            }),
    ;
}

/// A feature without tags.
pub struct EmptyTagSource;

impl TagSource for EmptyTagSource {
    open spec fn tags(&self) -> Map<TagDictId, TagDictId> {
        Map::empty()
    }

    proof fn lemma_valid(&self) {
    }

    fn has_tag(&self, key: TagDictId) -> (r: bool) {
        false
    }

    fn get_tag(&self, key: TagDictId) -> (r: Option<TagDictId>) {
        None
    }
}

/// The mapping that a list of tags stands for: a later tag replaces an
/// earlier one with the same key.
pub open spec fn tag_map(pairs: Seq<(TagDictId, TagDictId)>) -> Map<TagDictId, TagDictId>
    decreases pairs.len(),
{
    if pairs.len() == 0 {
        Map::empty()
    } else {
        tag_map(pairs.drop_last()).insert(pairs.last().0, pairs.last().1)
    }
}

/// The tags of a feature, held as a list.
pub struct TagList {
    pairs: Vec<(TagDictId, TagDictId)>,
}

impl TagList {
    /// A feature without tags.
    pub fn new() -> (r: Self)
        ensures
            r.tags() == Map::<TagDictId, TagDictId>::empty(),
    {
        let r = TagList { pairs: Vec::new() };
        r
    }

    /// Gives the feature the tag `key` with the value `value`, in place of
    /// the value that it had under that key. A tag under the id that
    /// stands for the unknown is not taken.
    pub fn insert(&mut self, key: TagDictId, value: TagDictId)
        ensures
            final(self).tags() == (if key == UNKNOWN_TAG_ID {
                old(self).tags()
            } else {
                old(self).tags().insert(key, value)
            }),
    {
        if key != UNKNOWN_TAG_ID {
            let ghost before = self.pairs@;
            self.pairs.push((key, value));
            assert(self.pairs@.drop_last() =~= before);
        }
    }
}

impl TagSource for TagList {
    closed spec fn tags(&self) -> Map<TagDictId, TagDictId> {
        tag_map(self.pairs@).remove(UNKNOWN_TAG_ID)
    }

    proof fn lemma_valid(&self) {
    }

    fn has_tag(&self, key: TagDictId) -> (r: bool) {
        self.get_tag(key).is_some()
    }

    fn get_tag(&self, key: TagDictId) -> (r: Option<TagDictId>) {
        if key == UNKNOWN_TAG_ID {
            return None;
        }
        let mut i: usize = self.pairs.len();
        assert(self.pairs@.take(i as int) =~= self.pairs@);
        while i > 0
            invariant
                i <= self.pairs@.len(),
                key != UNKNOWN_TAG_ID,
                tag_map(self.pairs@).dom().contains(key) <==> tag_map(
                    self.pairs@.take(i as int),
                ).dom().contains(key),
                tag_map(self.pairs@).dom().contains(key) ==> tag_map(self.pairs@)[key] == tag_map(
                    self.pairs@.take(i as int),
                )[key],
            decreases i,
        {
            assert(self.pairs@.take(i as int).drop_last() =~= self.pairs@.take(i as int - 1));
            i -= 1;
            if self.pairs[i].0 == key {
                return Some(self.pairs[i].1);
            }
        }
        None
    }
}

/// Per-edge features that are computed outside of a profile and read by
/// name, each an IEEE-754 single-precision number given by its bits.
pub trait GlobalLookup {
    /// The features on offer.
    spec fn globals(&self) -> Map<Seq<char>, u32>;

    /// The feature of this name, if it is on offer.
    fn lookup(&self, name: &str) -> (r: Option<u32>)
        ensures
            r == (if self.globals().dom().contains(name@) {
                Some(self.globals()[name@])
            } else {
                None
            }),
    ;
}

/// Offers no feature: what constant definitions are evaluated against.
pub struct NoGlobals;

impl GlobalLookup for NoGlobals {
    open spec fn globals(&self) -> Map<Seq<char>, u32> {
        Map::empty()
    }

    fn lookup(&self, name: &str) -> (r: Option<u32>) {
        None
    }
}

/// Per-edge features, held as a table from names to numbers.
pub struct GlobalTable {
    entries: StringHashMap<u32>,
}

impl GlobalTable {
    /// A table that offers nothing.
    pub fn new() -> (r: Self)
        ensures
            r.globals() == Map::<Seq<char>, u32>::empty(),
    {
        GlobalTable { entries: StringHashMap::new() }
    }

    /// Offers the feature `name` as the number with the bits `bits`, in
    /// place of what was offered under that name.
    pub fn insert(&mut self, name: String, bits: u32)
        ensures
            final(self).globals() == old(self).globals().insert(name@, bits),
    {
        self.entries.insert(name, bits);
    }
}

impl GlobalLookup for GlobalTable {
    closed spec fn globals(&self) -> Map<Seq<char>, u32> {
        self.entries@
    }

    fn lookup(&self, name: &str) -> (r: Option<u32>) {
        match self.entries.get(name) {
            Some(bits) => Some(*bits),
            None => None,
        }
    }
}

} // verus!
