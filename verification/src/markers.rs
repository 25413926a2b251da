//! The marker keys a scan looks for.

use vstd::prelude::*;
use vstd::slice::slice_to_vec;
use vstd::string::StringSliceAdditionalSpecFns;
use crate::text::byte_strings;
use crate::text::contains;
use crate::text::occurs_in;
use crate::text::split;
use crate::text::split_on;

verus! {

/// The byte that separates the keys of an override.
pub const KEY_SEPARATOR: u8 = 58;

/// The key looked for when no override is given.
pub open spec fn default_key() -> Seq<u8> {
    "FIXME".spec_bytes()
}

/// The keys that an override stands for. An absent or empty override stands
/// for the default key alone; any other is cut at every separator, and each
/// piece is a key, empty pieces included.
pub open spec fn keys_of(setting: Option<Seq<u8>>) -> Seq<Seq<u8>> {
    match setting {
        Some(text) => if text.len() > 0 {
            split_on(text, KEY_SEPARATOR)
        } else {
            seq![default_key()]
        },
        None => seq![default_key()],
    }
}

/// The bytes of an override, if there is one.
pub open spec fn override_bytes(setting: Option<&str>) -> Option<Seq<u8>> {
    match setting {
        Some(text) => Some(text.spec_bytes()),
        None => None,
    }
}

/// Some key of `keys` is a substring of `line`.
pub open spec fn any_key_in(keys: Seq<Seq<u8>>, line: Seq<u8>) -> bool {
    exists|k: int| 0 <= k < keys.len() && occurs_in(#[trigger] keys[k], line)
}

/// The configured marker keys. There is always at least one.
#[derive(Debug)]
pub struct MarkerSet {
    keys: Vec<Vec<u8>>,
}

impl View for MarkerSet {
    type V = Seq<Seq<u8>>;

    closed spec fn view(&self) -> Seq<Seq<u8>> {
        byte_strings(self.keys@)
    }
}

impl MarkerSet {
    #[verifier::type_invariant]
    spec fn nonempty(self) -> bool {
        self.keys@.len() > 0
    }

    /// The set that holds the default key alone.
    pub fn standard() -> (set: MarkerSet)
        ensures
            set@ == seq![default_key()],
    {
        let key = slice_to_vec("FIXME".as_bytes());
        let mut keys: Vec<Vec<u8>> = Vec::new();
        keys.push(key);
        proof {
            assert(key@ =~= default_key());
            assert(byte_strings(keys@) =~= seq![default_key()]);
        }
        MarkerSet { keys }
    }

    /// The set that an override stands for.
    pub fn from_override(setting: Option<&str>) -> (set: MarkerSet)
        ensures
            set@ == keys_of(override_bytes(setting)),
    {
        match setting {
            None => MarkerSet::standard(),
            Some(text) => {
                let bytes = text.as_bytes();
                if bytes.len() == 0 {
                    MarkerSet::standard()
                } else {
                    let keys = split(bytes, KEY_SEPARATOR);
                    proof {
                        lemma_split_nonempty(bytes@, KEY_SEPARATOR);
                    }
                    MarkerSet { keys }
                }
            },
        }
    }

    /// The number of keys.
    pub fn len(&self) -> (n: usize)
        ensures
            n == self@.len(),
            n > 0,
    {
        proof {
            use_type_invariant(self);
        }
        self.keys.len()
    }

    /// The key at `index`.
    pub fn key(&self, index: usize) -> (key: &[u8])
        requires
            index < self@.len(),
        ensures
            key@ == self@[index as int],
    {
        self.keys[index].as_slice()
    }

    /// Whether `line` holds any of the keys.
    pub fn matches(&self, line: &[u8]) -> (found: bool)
        ensures
            found == any_key_in(self@, line@),
    {
        let n: usize = self.keys.len();
        let mut k: usize = 0;
        while k < n
            invariant
                n == self.keys@.len(),
                k <= n,
                forall|j: int| 0 <= j < k ==> !occurs_in(#[trigger] self@[j], line@),
            decreases n - k,
        {
            if contains(line, self.keys[k].as_slice()) {
                proof {
                    assert(occurs_in(self@[k as int], line@));
                }
                return true;
            }
            k = k + 1;
        }
        false
    }
}

/// Splitting always gives at least one piece.
pub proof fn lemma_split_nonempty(s: Seq<u8>, delim: u8)
    ensures
        split_on(s, delim).len() > 0,
{
}

/// Matching is a disjunction over the keys: a line matches a set exactly when
/// it holds one of its keys, whichever and however many.
pub proof fn lemma_any_key_is_or(keys: Seq<Seq<u8>>, more: Seq<Seq<u8>>, line: Seq<u8>)
    ensures
        any_key_in(keys + more, line) <==> any_key_in(keys, line) || any_key_in(more, line),
        forall|k: int| 0 <= k < keys.len() && occurs_in(#[trigger] keys[k], line) ==> any_key_in(keys, line),
{
    let all = keys + more;
    if any_key_in(keys, line) {
        let k = choose|k: int| 0 <= k < keys.len() && occurs_in(#[trigger] keys[k], line);
        assert(all[k] == keys[k]);
    }
    if any_key_in(more, line) {
        let k = choose|k: int| 0 <= k < more.len() && occurs_in(#[trigger] more[k], line);
        assert(all[keys.len() + k] == more[k]);
    }
    if any_key_in(all, line) {
        let k = choose|k: int| 0 <= k < all.len() && occurs_in(#[trigger] all[k], line);
        if k < keys.len() {
            assert(all[k] == keys[k]);
        } else {
            assert(all[k] == more[k - keys.len()]);
        }
    }
}

} // verus!
