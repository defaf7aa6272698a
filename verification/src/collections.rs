//! Keyed, collision-aware collections of parsed frames.

use crate::error::{SaveError, SaveResult};
use crate::frames::{spec_frame_body, spec_render_frames, Frame};
use crate::header::TagHeader;
use crate::header::Version;
use crate::raw::SYNCSAFE_MAX;
use crate::strings;
use vstd::prelude::*;

verus! {

/// The first index at or after `i` whose frame has the given key.
pub open spec fn spec_find_key(es: Seq<Frame>, key: Seq<char>, i: int) -> Option<int>
    decreases es.len() - i when 0 <= i <= es.len()
{
    if i >= es.len() {
        None
    } else if es[i].spec_key() == key {
        Some(i)
    } else {
        spec_find_key(es, key, i + 1)
    }
}

/// One frame added to a keyed map: a frame whose key is already present
/// overwrites that entry in place, any other is appended.
pub open spec fn spec_add_frame(es: Seq<Frame>, f: Frame) -> Seq<Frame> {
    match spec_find_key(es, f.spec_key(), 0) {
        Some(i) => es.update(i, f),
        None => es.push(f),
    }
}

/// A sequence of frames folded into a keyed map, in order.
pub open spec fn spec_fold_frames(fs: Seq<Frame>) -> Seq<Frame>
    decreases fs.len(),
{
    if fs.len() == 0 {
        Seq::empty()
    } else {
        spec_add_frame(spec_fold_frames(fs.drop_last()), fs.last())
    }
}

/// Whether every key appears at most once.
pub open spec fn spec_keys_unique(es: Seq<Frame>) -> bool {
    forall|i: int, j: int|
        0 <= i < j < es.len() ==> (#[trigger] es[i]).spec_key() != (#[trigger] es[j]).spec_key()
}

/// An ordered mapping from a frame's key to the frame. Keys are unique:
/// adding a frame whose key is already present replaces that entry, since
/// duplicate keys within one tag are malformed input and need a
/// deterministic resolution.
#[derive(Debug)]
pub struct FrameMap {
    /// The frames, in insertion order, with pairwise distinct keys.
    pub entries: Vec<Frame>,
}

impl FrameMap {
    /// The keys are unique.
    pub open spec fn wf(&self) -> bool {
        spec_keys_unique(self.entries@)
    }

    /// An empty map.
    pub fn new() -> (r: FrameMap)
        ensures
            r.entries@.len() == 0,
            r.wf(),
    {
        FrameMap { entries: Vec::new() }
    }

    /// The frames, in insertion order.
    pub fn frames(&self) -> (r: &Vec<Frame>)
        ensures
            r == &self.entries,
    {
        &self.entries
    }

    /// The count of frames held.
    pub fn len(&self) -> (r: usize)
        ensures
            r == self.entries@.len(),
    {
        self.entries.len()
    }

    /// Whether the map holds no frame.
    pub fn is_empty(&self) -> (r: bool)
        ensures
            r == (self.entries@.len() == 0),
    {
        self.entries.is_empty()
    }

    /// Removes every frame.
    pub fn clear(&mut self)
        ensures
            final(self).entries@.len() == 0,
            final(self).wf(),
    {
        self.entries.clear();
    }

    /// The index of the frame with the given key, if one is held.
    fn find(&self, key: &String) -> (r: Option<usize>)
        ensures
            match r {
                Some(i) => spec_find_key(self.entries@, key@, 0) == Some(i as int) && i
                    < self.entries@.len(),
                None => spec_find_key(self.entries@, key@, 0) is None,
            },
    {
        let mut j: usize = 0;
        while j < self.entries.len()
            invariant
                j <= self.entries@.len(),
                spec_find_key(self.entries@, key@, 0) == spec_find_key(
                    self.entries@,
                    key@,
                    j as int,
                ),
            decreases self.entries@.len() - j,
        {
            let entry_key = self.entries[j].key();
            if strings::str_eq(entry_key.as_str(), key.as_str()) {
                return Some(j);
            }
            j = j + 1;
        }
        None
    }

    /// Adds a frame. A frame whose key is already present overwrites that
    /// entry in place; the later insertion wins.
    pub fn add(&mut self, frame: Frame)
        requires
            old(self).wf(),
        ensures
            final(self).entries@ == spec_add_frame(old(self).entries@, frame),
            final(self).wf(),
    {
        let key = frame.key();
        match self.find(&key) {
            Some(i) => {
                self.entries[i] = frame;
                proof {
                    lemma_find_key_bounds(old(self).entries@, frame.spec_key(), 0);
                    lemma_update_keeps_unique(old(self).entries@, i as int, frame);
                }
            },
            None => {
                self.entries.push(frame);
                proof {
                    lemma_push_keeps_unique(old(self).entries@, frame);
                }
            },
        }
    }

    /// The frame with the given key, if one is held.
    pub fn get(&self, key: &String) -> (r: Option<&Frame>)
        ensures
            match spec_find_key(self.entries@, key@, 0) {
                Some(i) => r matches Some(f) && *f == self.entries@[i],
                None => r is None,
            },
    {
        match self.find(key) {
            Some(i) => Some(&self.entries[i]),
            None => None,
        }
    }

    /// Whether a frame with the given key is held.
    pub fn contains_key(&self, key: &String) -> (r: bool)
        ensures
            r == (spec_find_key(self.entries@, key@, 0) is Some),
    {
        match self.find(key) {
            Some(_) => true,
            None => false,
        }
    }

    /// Removes and returns the frame with the given key.
    pub fn remove(&mut self, key: &String) -> (r: Option<Frame>)
        requires
            old(self).wf(),
        ensures
            final(self).wf(),
            match spec_find_key(old(self).entries@, key@, 0) {
                Some(i) => r matches Some(f) && f == old(self).entries@[i] && final(self).entries@
                    == old(self).entries@.remove(i),
                None => r is None && final(self).entries@ == old(self).entries@,
            },
    {
        match self.find(key) {
            Some(i) => {
                proof {
                    lemma_find_key_bounds(old(self).entries@, key@, 0);
                }
                let f = self.entries.remove(i);
                proof {
                    lemma_remove_keeps_unique(old(self).entries@, i as int);
                }
                Some(f)
            },
            None => None,
        }
    }

    /// Renders every frame in insertion order, each for the current tag
    /// version. Fails with `TooLarge` when some frame body exceeds the
    /// syncsafe size limit.
    #[verifier::loop_isolation(false)]
    pub fn render(&self, tag_header: &TagHeader) -> (r: SaveResult<Vec<u8>>)
        requires
            tag_header.major == 3 || tag_header.major == 4,
            forall|i: int| 0 <= i < self.entries@.len() ==> (#[trigger] self.entries@[i]).wf(),
        ensures
            r matches Ok(v) ==> v@ == spec_render_frames(tag_header.major, self.entries@),
            r matches Err(e) ==> e == SaveError::TooLarge && exists|i: int|
                0 <= i < self.entries@.len() && spec_frame_body(
                    tag_header.major,
                    #[trigger] self.entries@[i],
                ).len() > SYNCSAFE_MAX,
        decreases self.entries@, 2int,
    {
        let mut out: Vec<u8> = Vec::new();
        let mut i: usize = 0;
        assert(self.entries@.take(0) =~= Seq::<Frame>::empty());
        assert(out@ =~= spec_render_frames(tag_header.major, self.entries@.take(0)));
        while i < self.entries.len()
            invariant
                i <= self.entries@.len(),
                out@ == spec_render_frames(tag_header.major, self.entries@.take(i as int)),
            decreases self.entries@.len() - i,
        {
            let mut rendered = match self.entries[i].render(tag_header) {
                Ok(v) => v,
                Err(e) => {
                    return Err(e);
                },
            };
            out.append(&mut rendered);
            proof {
                assert(self.entries@.take(i as int + 1).drop_last() =~= self.entries@.take(
                    i as int,
                ));
                assert(self.entries@.take(i as int + 1).last() == self.entries@[i as int]);
            }
            i = i + 1;
        }
        assert(self.entries@.take(self.entries@.len() as int) =~= self.entries@);
        Ok(out)
    }
}

/// A found key index lies inside the entries.
pub proof fn lemma_find_key_bounds(es: Seq<Frame>, key: Seq<char>, i: int)
    requires
        0 <= i <= es.len(),
    ensures
        match spec_find_key(es, key, i) {
            Some(j) => i <= j < es.len() && es[j].spec_key() == key,
            None => forall|j: int| i <= j < es.len() ==> (#[trigger] es[j]).spec_key() != key,
        },
    decreases es.len() - i,
{
    if i < es.len() && es[i].spec_key() != key {
        lemma_find_key_bounds(es, key, i + 1);
    }
}

/// Overwriting the entry that holds the new frame's key keeps the keys
/// unique.
pub proof fn lemma_update_keeps_unique(es: Seq<Frame>, i: int, f: Frame)
    requires
        spec_keys_unique(es),
        0 <= i < es.len(),
        es[i].spec_key() == f.spec_key(),
    ensures
        spec_keys_unique(es.update(i, f)),
{
    let es2 = es.update(i, f);
    assert forall|a: int, b: int| 0 <= a < b < es2.len() implies (#[trigger] es2[a]).spec_key() != (
    #[trigger] es2[b]).spec_key() by {
        assert(es2[a] == if a == i {
            f
        } else {
            es[a]
        });
        assert(es2[b] == if b == i {
            f
        } else {
            es[b]
        });
    }
}

/// Appending a frame whose key is absent keeps the keys unique.
pub proof fn lemma_push_keeps_unique(es: Seq<Frame>, f: Frame)
    requires
        spec_keys_unique(es),
        spec_find_key(es, f.spec_key(), 0) is None,
    ensures
        spec_keys_unique(es.push(f)),
{
    lemma_find_key_bounds(es, f.spec_key(), 0);
    let es2 = es.push(f);
    assert forall|a: int, b: int| 0 <= a < b < es2.len() implies (#[trigger] es2[a]).spec_key() != (
    #[trigger] es2[b]).spec_key() by {
        if b < es.len() {
            assert(es2[a] == es[a] && es2[b] == es[b]);
        } else {
            assert(es2[b] == f && es2[a] == es[a]);
        }
    }
}

/// Removing an entry keeps the keys unique.
pub proof fn lemma_remove_keeps_unique(es: Seq<Frame>, i: int)
    requires
        spec_keys_unique(es),
        0 <= i < es.len(),
    ensures
        spec_keys_unique(es.remove(i)),
{
    let es2 = es.remove(i);
    assert forall|a: int, b: int| 0 <= a < b < es2.len() implies (#[trigger] es2[a]).spec_key() != (
    #[trigger] es2[b]).spec_key() by {
        let a0 = if a < i {
            a
        } else {
            a + 1
        };
        let b0 = if b < i {
            b
        } else {
            b + 1
        };
        assert(es2[a] == es[a0] && es2[b] == es[b0]);
    }
}

/// Folding frames that are all fit for rendering yields a map of frames
/// fit for rendering.
pub proof fn lemma_fold_frames_wf(fs: Seq<Frame>)
    requires
        forall|i: int| 0 <= i < fs.len() ==> (#[trigger] fs[i]).wf(),
    ensures
        forall|i: int|
            0 <= i < spec_fold_frames(fs).len() ==> (#[trigger] spec_fold_frames(fs)[i]).wf(),
    decreases fs.len(),
{
    if fs.len() > 0 {
        assert(forall|i: int| 0 <= i < fs.drop_last().len() ==> (#[trigger] fs.drop_last()[i]).wf());
        lemma_fold_frames_wf(fs.drop_last());
        let base = spec_fold_frames(fs.drop_last());
        let f = fs.last();
        assert(f.wf());
        assert forall|i: int|
            0 <= i < spec_fold_frames(fs).len() implies (#[trigger] spec_fold_frames(fs)[i]).wf() by {
            match spec_find_key(base, f.spec_key(), 0) {
                Some(k) => {
                    lemma_find_key_bounds(base, f.spec_key(), 0);
                    assert(spec_fold_frames(fs) == base.update(k, f));
                    if i == k {
                        assert(spec_fold_frames(fs)[i] == f);
                    } else {
                        assert(spec_fold_frames(fs)[i] == base[i]);
                        assert(base[i].wf());
                    }
                },
                None => {
                    assert(spec_fold_frames(fs) == base.push(f));
                    if i < base.len() {
                        assert(spec_fold_frames(fs)[i] == base[i]);
                        assert(base[i].wf());
                    } else {
                        assert(spec_fold_frames(fs)[i] == f);
                    }
                },
            }
        }
    }
}

/// Adding a frame fit for rendering to entries fit for rendering keeps
/// every entry fit for rendering.
pub proof fn lemma_add_frame_wf(es: Seq<Frame>, f: Frame)
    requires
        forall|i: int| 0 <= i < es.len() ==> (#[trigger] es[i]).wf(),
        f.wf(),
    ensures
        forall|i: int|
            0 <= i < spec_add_frame(es, f).len() ==> (#[trigger] spec_add_frame(es, f)[i]).wf(),
{
    let es2 = spec_add_frame(es, f);
    lemma_find_key_bounds(es, f.spec_key(), 0);
    assert forall|i: int| 0 <= i < es2.len() implies (#[trigger] es2[i]).wf() by {
        match spec_find_key(es, f.spec_key(), 0) {
            Some(k) => {
                assert(es2 == es.update(k, f));
                if i != k {
                    assert(es2[i] == es[i]);
                }
            },
            None => {
                assert(es2 == es.push(f));
                if i < es.len() {
                    assert(es2[i] == es[i]);
                }
            },
        }
    }
}

/// Removing an entry keeps every remaining entry fit for rendering.
pub proof fn lemma_remove_frame_wf(es: Seq<Frame>, k: int)
    requires
        forall|i: int| 0 <= i < es.len() ==> (#[trigger] es[i]).wf(),
        0 <= k < es.len(),
    ensures
        forall|i: int| 0 <= i < es.remove(k).len() ==> (#[trigger] es.remove(k)[i]).wf(),
{
    let es2 = es.remove(k);
    assert forall|i: int| 0 <= i < es2.len() implies (#[trigger] es2[i]).wf() by {
        if i < k {
            assert(es2[i] == es[i]);
        } else {
            assert(es2[i] == es[i + 1]);
        }
    }
}

/// The rendered frames are at least as long as any one frame's body.
pub proof fn lemma_render_frames_ge(major: u8, es: Seq<Frame>, i: int)
    requires
        0 <= i < es.len(),
    ensures
        spec_render_frames(major, es).len() >= spec_frame_body(major, es[i]).len(),
    decreases es.len(),
{
    if i == es.len() - 1 {
        assert(es.last() == es[i]);
    } else {
        lemma_render_frames_ge(major, es.drop_last(), i);
        assert(es.drop_last()[i] == es[i]);
    }
}

/// Whether some entry holds the given key.
pub open spec fn spec_has_key(es: Seq<Frame>, key: Seq<char>) -> bool {
    spec_find_key(es, key, 0) is Some
}

/// The frame held under a key, if any.
pub open spec fn spec_frame_at(es: Seq<Frame>, key: Seq<char>) -> Option<Frame> {
    match spec_find_key(es, key, 0) {
        Some(i) => Some(es[i]),
        None => None,
    }
}

/// With unique keys, the frame held under a key is the one element that
/// carries it.
pub proof fn lemma_frame_at_unique(es: Seq<Frame>, key: Seq<char>)
    requires
        spec_keys_unique(es),
    ensures
        match spec_frame_at(es, key) {
            Some(f) => exists|i: int|
                0 <= i < es.len() && #[trigger] es[i] == f && es[i].spec_key() == key,
            None => forall|i: int| 0 <= i < es.len() ==> (#[trigger] es[i]).spec_key() != key,
        },
        forall|i: int|
            0 <= i < es.len() && (#[trigger] es[i]).spec_key() == key ==> spec_frame_at(es, key)
                == Some(es[i]),
{
    lemma_find_key_bounds(es, key, 0);
    assert forall|i: int|
        0 <= i < es.len() && (#[trigger] es[i]).spec_key() == key implies spec_frame_at(es, key)
        == Some(es[i]) by {
        match spec_find_key(es, key, 0) {
            Some(j) => {
                assert(es[j].spec_key() == key);
                if i != j {
                    assert(es[i].spec_key() != es[j].spec_key());
                    assert(false);
                }
            },
            None => {
                assert(es[i].spec_key() != key);
                assert(false);
            },
        }
    }
}

/// A key is found exactly when some entry holds it.
pub proof fn lemma_has_key_iff_exists(es: Seq<Frame>, key: Seq<char>)
    ensures
        spec_has_key(es, key) <==> exists|i: int|
            0 <= i < es.len() && (#[trigger] es[i]).spec_key() == key,
{
    lemma_find_key_bounds(es, key, 0);
    match spec_find_key(es, key, 0) {
        Some(j) => {
            assert(es[j].spec_key() == key);
        },
        None => {
        },
    }
}

/// Adding a frame affects no other key: neither its presence nor the
/// frame held under it.
pub proof fn lemma_add_other_key(es: Seq<Frame>, f: Frame, key: Seq<char>)
    requires
        f.spec_key() != key,
        spec_keys_unique(es),
    ensures
        spec_has_key(spec_add_frame(es, f), key) == spec_has_key(es, key),
        spec_frame_at(spec_add_frame(es, f), key) == spec_frame_at(es, key),
{
    lemma_frame_at_unique(es, key);
    match spec_find_key(es, f.spec_key(), 0) {
        Some(k0) => {
            lemma_find_key_bounds(es, f.spec_key(), 0);
            lemma_update_keeps_unique(es, k0, f);
        },
        None => {
            lemma_push_keeps_unique(es, f);
        },
    }
    lemma_frame_at_unique(spec_add_frame(es, f), key);
    lemma_add_other_key_presence(es, f, key);
    let es2 = spec_add_frame(es, f);
    lemma_find_key_bounds(es, f.spec_key(), 0);
    match spec_frame_at(es, key) {
        Some(g) => {
            lemma_find_key_bounds(es, key, 0);
            let i = spec_find_key(es, key, 0)->Some_0;
            assert(es[i] == g && es[i].spec_key() == key);
            match spec_find_key(es, f.spec_key(), 0) {
                Some(k0) => {
                    assert(i != k0);
                    assert(es2[i] == g);
                },
                None => {
                    assert(es2[i] == g);
                },
            }
            assert(spec_frame_at(es2, key) == Some(g));
        },
        None => {
            assert(!spec_has_key(es, key));
            assert(!spec_has_key(es2, key));
        },
    }
}

/// Adding a frame affects no other key's presence.
proof fn lemma_add_other_key_presence(es: Seq<Frame>, f: Frame, key: Seq<char>)
    requires
        f.spec_key() != key,
    ensures
        spec_has_key(spec_add_frame(es, f), key) == spec_has_key(es, key),
{
    lemma_has_key_iff_exists(es, key);
    lemma_has_key_iff_exists(spec_add_frame(es, f), key);
    lemma_find_key_bounds(es, f.spec_key(), 0);
    let es2 = spec_add_frame(es, f);
    match spec_find_key(es, f.spec_key(), 0) {
        Some(k) => {
            assert(es2 == es.update(k, f));
            if spec_has_key(es, key) {
                let i = choose|i: int| 0 <= i < es.len() && (#[trigger] es[i]).spec_key() == key;
                assert(i != k);
                assert(es2[i].spec_key() == key);
            }
            if spec_has_key(es2, key) {
                let i = choose|i: int| 0 <= i < es2.len() && (#[trigger] es2[i]).spec_key() == key;
                assert(i != k);
                assert(es[i].spec_key() == key);
            }
        },
        None => {
            assert(es2 == es.push(f));
            if spec_has_key(es, key) {
                let i = choose|i: int| 0 <= i < es.len() && (#[trigger] es[i]).spec_key() == key;
                assert(es2[i].spec_key() == key);
            }
            if spec_has_key(es2, key) {
                let i = choose|i: int| 0 <= i < es2.len() && (#[trigger] es2[i]).spec_key() == key;
                assert(i != es.len());
                assert(es[i].spec_key() == key);
            }
        },
    }
}

/// After removing a key from a map with unique keys, the key is absent.
pub proof fn lemma_remove_key_absent(es: Seq<Frame>, key: Seq<char>)
    requires
        spec_keys_unique(es),
    ensures
        match spec_find_key(es, key, 0) {
            Some(i) => !spec_has_key(es.remove(i), key),
            None => !spec_has_key(es, key),
        },
{
    lemma_find_key_bounds(es, key, 0);
    match spec_find_key(es, key, 0) {
        Some(i) => {
            assert(es[i].spec_key() == key);
            let es2 = es.remove(i);
            lemma_has_key_iff_exists(es2, key);
            if spec_has_key(es2, key) {
                let j = choose|j: int| 0 <= j < es2.len() && (#[trigger] es2[j]).spec_key() == key;
                let j0 = if j < i {
                    j
                } else {
                    j + 1
                };
                assert(es2[j] == es[j0]);
                assert(es[j0].spec_key() == key && j0 != i);
                assert(false);
            }
        },
        None => {
        },
    }
}

/// Removing an entry affects no other key: neither its presence nor the
/// frame held under it.
pub proof fn lemma_remove_other_key(es: Seq<Frame>, i: int, key: Seq<char>)
    requires
        0 <= i < es.len(),
        es[i].spec_key() != key,
        spec_keys_unique(es),
    ensures
        spec_has_key(es.remove(i), key) == spec_has_key(es, key),
        spec_frame_at(es.remove(i), key) == spec_frame_at(es, key),
{
    lemma_remove_keeps_unique(es, i);
    lemma_frame_at_unique(es, key);
    lemma_frame_at_unique(es.remove(i), key);
    lemma_remove_other_key_presence(es, i, key);
    let es2 = es.remove(i);
    match spec_frame_at(es, key) {
        Some(g) => {
            lemma_find_key_bounds(es, key, 0);
            let j = spec_find_key(es, key, 0)->Some_0;
            assert(es[j] == g && es[j].spec_key() == key);
            assert(j != i);
            let j2 = if j < i {
                j
            } else {
                j - 1
            };
            assert(es2[j2] == es[j]);
            assert(spec_frame_at(es2, key) == Some(g));
        },
        None => {
            assert(!spec_has_key(es, key));
            assert(!spec_has_key(es2, key));
        },
    }
}

/// Removing an entry affects no other key's presence.
proof fn lemma_remove_other_key_presence(es: Seq<Frame>, i: int, key: Seq<char>)
    requires
        0 <= i < es.len(),
        es[i].spec_key() != key,
    ensures
        spec_has_key(es.remove(i), key) == spec_has_key(es, key),
{
    lemma_has_key_iff_exists(es, key);
    lemma_has_key_iff_exists(es.remove(i), key);
    let es2 = es.remove(i);
    if spec_has_key(es, key) {
        let j = choose|j: int| 0 <= j < es.len() && (#[trigger] es[j]).spec_key() == key;
        assert(j != i);
        let j2 = if j < i {
            j
        } else {
            j - 1
        };
        assert(es2[j2] == es[j]);
    }
    if spec_has_key(es2, key) {
        let j = choose|j: int| 0 <= j < es2.len() && (#[trigger] es2[j]).spec_key() == key;
        let j0 = if j < i {
            j
        } else {
            j + 1
        };
        assert(es2[j] == es[j0]);
    }
}

/// Law: with identical keys, the later insertion wins. Adding `f1` and
/// then `f2` to a map, where both frames carry the same key, leaves the
/// map with exactly one entry under that key, and it holds `f2`.
pub proof fn lemma_same_key_overwrites(es: Seq<Frame>, f1: Frame, f2: Frame)
    requires
        spec_keys_unique(es),
        f1.spec_key() == f2.spec_key(),
    ensures
        ({
            let es2 = spec_add_frame(spec_add_frame(es, f1), f2);
            exists|i: int|
                0 <= i < es2.len() && #[trigger] es2[i] == f2 && (forall|j: int|
                    0 <= j < es2.len() && j != i ==> (#[trigger] es2[j]).spec_key()
                        != f2.spec_key())
        }),
{
    let key = f1.spec_key();
    let es1 = spec_add_frame(es, f1);
    lemma_find_key_bounds(es, key, 0);
    match spec_find_key(es, key, 0) {
        Some(i) => {
            assert(es1 == es.update(i, f1));
            lemma_update_keeps_unique(es, i, f1);
            lemma_find_key_bounds(es1, key, 0);
            match spec_find_key(es1, key, 0) {
                Some(i2) => {
                    let es2 = es1.update(i2, f2);
                    assert(spec_add_frame(es1, f2) == es2);
                    assert(es2[i2] == f2);
                    lemma_update_keeps_unique(es1, i2, f2);
                    assert forall|j: int|
                        0 <= j < es2.len() && j != i2 implies (#[trigger] es2[j]).spec_key()
                        != key by {
                        assert(spec_keys_unique(es2));
                        assert(es2[i2].spec_key() == key);
                    }
                    assert(0 <= i2 < es2.len() && es2[i2] == f2);
                },
                None => {
                    assert(es1[i].spec_key() == key);
                    assert(false);
                },
            }
        },
        None => {
            assert(es1 == es.push(f1));
            lemma_push_keeps_unique(es, f1);
            lemma_find_key_bounds(es1, key, 0);
            match spec_find_key(es1, key, 0) {
                Some(i2) => {
                    let es2 = es1.update(i2, f2);
                    assert(spec_add_frame(es1, f2) == es2);
                    assert(es2[i2] == f2);
                    lemma_update_keeps_unique(es1, i2, f2);
                    assert forall|j: int|
                        0 <= j < es2.len() && j != i2 implies (#[trigger] es2[j]).spec_key()
                        != key by {
                        assert(spec_keys_unique(es2));
                        assert(es2[i2].spec_key() == key);
                    }
                    assert(0 <= i2 < es2.len() && es2[i2] == f2);
                },
                None => {
                    assert(es1[es.len() as int].spec_key() == key);
                    assert(false);
                },
            }
        },
    }
}

/// A raw frame whose identifier no parser claims: its original header
/// bytes and body, kept opaquely so that it can be written back
/// unchanged.
#[derive(Debug, Clone)]
pub struct UnknownFrame {
    /// The frame identifier, decoded from the header.
    pub id: String,
    /// The raw header bytes, exactly as read.
    pub header_raw: Vec<u8>,
    /// The raw body bytes, exactly as read.
    pub body: Vec<u8>,
}

impl UnknownFrame {
    /// The frame identifier.
    pub fn id_str(&self) -> (r: &String)
        ensures
            r@ == self.id@,
    {
        &self.id
    }
}

/// The unknown frames of a tag, kept apart from the parsed ones, tagged
/// with the version they were read under: their raw bytes cannot be
/// safely reinterpreted under another version, so they never cross a
/// version migration.
#[derive(Debug, Clone)]
pub struct UnknownFrames {
    /// The version the frames were parsed under.
    pub version: Version,
    /// The raw frames, in reading order.
    pub frames: Vec<UnknownFrame>,
}

impl UnknownFrames {
    /// A collection of raw frames read under the given version.
    pub fn new(version: Version, frames: Vec<UnknownFrame>) -> (r: UnknownFrames)
        ensures
            r.version == version,
            r.frames == frames,
    {
        UnknownFrames { version, frames }
    }

    /// The version the frames were parsed under.
    pub fn version(&self) -> (r: Version)
        ensures
            r == self.version,
    {
        self.version
    }

    /// The raw frames, in reading order.
    pub fn frames(&self) -> (r: &Vec<UnknownFrame>)
        ensures
            r == &self.frames,
    {
        &self.frames
    }
}

} // verus!
