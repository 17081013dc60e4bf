//! Document-level source content store: the bytes of each source a document
//! references, keyed by source id, from the file's own embed cache or
//! supplied at runtime by the host after it fetched the source.

use vstd::prelude::*;
use vstd::string::*;
use vstd::utf8::*;
use std::collections::HashMap;
use vstd::std_specs::hash::spec_keys_iter;
use vstd::std_specs::iter::IteratorSpec;

verus! {

broadcast use vstd::std_specs::hash::group_hash_axioms;

/// What `String::from_utf8_lossy` makes of `bytes`: every invalid sequence
/// replaced by U+FFFD.
pub uninterp spec fn utf8_lossy(bytes: Seq<u8>) -> Seq<char>;

/// Calls `String::from_utf8_lossy` and takes the text. Claimed (its
/// documentation): the text is a function of the bytes, and valid UTF-8 is
/// decoded as it is.
#[verifier::external_body]
fn text_from_utf8_lossy(bytes: &[u8]) -> (res: String)
    ensures
        res@ == utf8_lossy(bytes@),
        valid_utf8(bytes@) ==> res@ == decode_utf8(bytes@),
{
    String::from_utf8_lossy(bytes).into_owned()
}

/// Content bytes for the sources a document references, keyed by source id.
pub struct SourceStore {
    contents: HashMap<u128, Vec<u8>>,
}

impl View for SourceStore {
    type V = Map<u128, Seq<u8>>;

    closed spec fn view(&self) -> Map<u128, Seq<u8>> {
        self.contents@.map_values(|v: Vec<u8>| v@)
    }
}

impl SourceStore {
    /// A store holds finitely many sources.
    pub proof fn lemma_finite(&self)
        ensures
            self@.dom().finite(),
    {
        assert(self@.dom() =~= self.contents@.dom());
    }

    /// The empty store.
    pub fn new() -> (res: SourceStore)
        ensures
            res@ == Map::<u128, Seq<u8>>::empty(),
    {
        let res = SourceStore { contents: HashMap::new() };
        assert(res@ =~= Map::<u128, Seq<u8>>::empty());
        res
    }

    /// Register (or replace) the bytes for a source id.
    pub fn insert(&mut self, id: u128, bytes: Vec<u8>)
        ensures
            final(self)@ == old(self)@.insert(id, bytes@),
    {
        let ghost b = bytes@;
        self.contents.insert(id, bytes);
        assert(self@ =~= old(self)@.insert(id, b));
    }

    /// Register (or replace) a text source (STEP, `.kicad_pcb`, `.waffle`)
    /// by its UTF-8 bytes.
    pub fn insert_text(&mut self, id: u128, text: &str)
        ensures
            final(self)@ == old(self)@.insert(id, encode_utf8(text@)),
    {
        let bytes = text.as_bytes_vec();
        self.insert(id, bytes);
    }

    /// The bytes of source `id`.
    pub fn get(&self, id: u128) -> (res: Option<&Vec<u8>>)
        ensures
            match res {
                Some(v) => self@.contains_key(id) && v@ == self@[id],
                None => !self@.contains_key(id),
            },
    {
        self.contents.get(&id)
    }

    /// The content of source `id` as text (lossy UTF-8).
    pub fn text(&self, id: u128) -> (res: Option<String>)
        ensures
            match res {
                Some(s) => self@.contains_key(id) && s@ == utf8_lossy(self@[id]) && (valid_utf8(
                    self@[id],
                ) ==> s@ == decode_utf8(self@[id])),
                None => !self@.contains_key(id),
            },
    {
        match self.contents.get(&id) {
            Some(b) => Some(text_from_utf8_lossy(b.as_slice())),
            None => None,
        }
    }

    pub fn contains(&self, id: u128) -> (r: bool)
        ensures
            r == self@.contains_key(id),
    {
        self.contents.contains_key(&id)
    }

    /// Drop source `id`, handing its bytes back.
    pub fn remove(&mut self, id: u128) -> (res: Option<Vec<u8>>)
        ensures
            final(self)@ == old(self)@.remove(id),
            match res {
                Some(v) => old(self)@.contains_key(id) && v@ == old(self)@[id],
                None => !old(self)@.contains_key(id),
            },
    {
        let res = self.contents.remove(&id);
        assert(self@ =~= old(self)@.remove(id));
        res
    }

    /// Every source id held, each once, in no particular order.
    pub fn ids(&self) -> (res: Vec<u128>)
        ensures
            res@.to_set() == self@.dom(),
            res@.no_duplicates(),
    {
        let mut out: Vec<u128> = Vec::new();
        let ghost keys = spec_keys_iter(&self.contents).remaining();
        for k in it: self.contents.keys()
            invariant
                it.seq() == keys,
                out@ == keys.take(it.index() as int).unref(),
                keys.unref().to_set() == self.contents@.dom(),
                keys.no_duplicates(),
        {
            let ghost i = it.index();
            out.push(*k);
            assert(out@ =~= keys.take(i + 1).unref());
        }
        proof {
            assert(keys.take(keys.len() as int) =~= keys);
            assert(self@.dom() =~= self.contents@.dom());
            assert forall|a: int, b: int|
                0 <= a < out@.len() && 0 <= b < out@.len() && a != b implies out@[a] != out@[b] by {
                assert(out@[a] == *keys[a]);
                assert(out@[b] == *keys[b]);
            }
        }
        out
    }

    /// The number of sources held.
    pub fn len(&self) -> (r: usize)
        ensures
            r == self@.len(),
    {
        assert(self@.dom() =~= self.contents@.dom());
        self.contents.len()
    }

    pub fn is_empty(&self) -> (r: bool)
        ensures
            r == (self@.len() == 0),
    {
        assert(self@.dom() =~= self.contents@.dom());
        self.contents.is_empty()
    }

    /// Drop every source.
    pub fn clear(&mut self)
        ensures
            final(self)@ == Map::<u128, Seq<u8>>::empty(),
    {
        self.contents.clear();
        assert(self@ =~= Map::<u128, Seq<u8>>::empty());
    }
}

/// Law: text registered with `insert_text` reads back unchanged: its bytes
/// are valid UTF-8 and decode to it, so `text` returns exactly it.
pub proof fn law_text_reads_back(before: Map<u128, Seq<u8>>, id: u128, t: Seq<char>)
    ensures
        before.insert(id, encode_utf8(t)).contains_key(id),
        valid_utf8(before.insert(id, encode_utf8(t))[id]),
        decode_utf8(before.insert(id, encode_utf8(t))[id]) == t,
{
    encode_utf8_valid_utf8(t);
    encode_utf8_decode_utf8(t);
}

} // verus!
