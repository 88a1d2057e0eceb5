//! The asset catalog: decoded, resampled samples keyed by the file's
//! path relative to the assets root.
//!
//! The catalog is built once before playback starts and is read-only
//! thereafter. A loader walks the assets root, decodes what it can
//! (skipping files that fail to decode), and records each sample's
//! shape here; the decoded audio data itself stays with the engine
//! driver. Keys use platform-independent `/` separators; a colliding
//! key overwrites the earlier entry (last write wins).

use vstd::prelude::*;

verus! {

use vstd::arithmetic::div_mod::lemma_fundamental_div_mod;
use vstd::arithmetic::mul::lemma_mul_inequality;
use vstd::string::StringExecFns;

/// The shape of one decoded, resampled sample: enough to compute its
/// nominal duration. The decoded frames themselves are engine data and
/// live with the driver, shared by reference across all handles.
#[derive(Clone, Copy, Debug, PartialEq, Eq, Structural)]
pub struct SampleInfo {
    /// Number of audio frames after resampling.
    pub frames: u64,
    /// Number of interleaved channels.
    pub channels: u32,
    /// The output device's sample rate the data was resampled to, in Hz.
    pub sample_rate: u32,
}

impl SampleInfo {
    /// A decoded sample has at least one channel, a positive rate, and
    /// few enough frames that its length in milliseconds is computable.
    pub open spec fn wf(self) -> bool {
        &&& self.sample_rate > 0
        &&& self.channels > 0
        &&& self.frames <= u64::MAX as int / 1000
    }

    /// Nominal duration of the sample at normal speed, in milliseconds.
    pub open spec fn spec_duration_ms(self) -> int {
        self.frames * 1000 / (self.sample_rate as int)
    }

    /// Nominal duration of the sample at normal speed, in milliseconds.
    pub fn duration_ms(&self) -> (r: u64)
        requires
            self.wf(),
        ensures
            r == self.spec_duration_ms(),
    {
        proof {
            lemma_mul_inequality(self.frames as int, u64::MAX as int / 1000, 1000);
            lemma_fundamental_div_mod(u64::MAX as int, 1000);
        }
        (self.frames * 1000) / (self.sample_rate as u64)
    }
}

/// First-match lookup in a key/value sequence.
pub open spec fn assoc_get(s: Seq<(String, SampleInfo)>, key: Seq<char>) -> Option<SampleInfo>
    decreases s.len(),
{
    if s.len() == 0 {
        None
    } else if s[0].0@ == key {
        Some(s[0].1)
    } else {
        assoc_get(s.drop_first(), key)
    }
}

proof fn lemma_assoc_first_match(s: Seq<(String, SampleInfo)>, i: int, key: Seq<char>)
    requires
        0 <= i < s.len(),
        s[i].0@ == key,
        forall|j: int| 0 <= j < i ==> s[j].0@ != key,
    ensures
        assoc_get(s, key) == Some(s[i].1),
    decreases i,
{
    if i > 0 {
        assert(forall|j: int| 0 <= j < i - 1 ==> s.drop_first()[j].0@ != key);
        lemma_assoc_first_match(s.drop_first(), i - 1, key);
    }
}

proof fn lemma_assoc_no_match(s: Seq<(String, SampleInfo)>, key: Seq<char>)
    requires
        forall|j: int| 0 <= j < s.len() ==> s[j].0@ != key,
    ensures
        assoc_get(s, key) is None,
    decreases s.len(),
{
    if s.len() > 0 {
        assert(forall|j: int| 0 <= j < s.len() - 1 ==> s.drop_first()[j].0@ != key);
        lemma_assoc_no_match(s.drop_first(), key);
    }
}

proof fn lemma_assoc_update_other_key(
    s: Seq<(String, SampleInfo)>,
    i: int,
    e: (String, SampleInfo),
    key: Seq<char>,
)
    requires
        0 <= i < s.len(),
        s[i].0@ == e.0@,
        key != e.0@,
    ensures
        assoc_get(s.update(i, e), key) == assoc_get(s, key),
    decreases i,
{
    let s2 = s.update(i, e);
    if i == 0 {
        assert(s2.drop_first() =~= s.drop_first());
    } else {
        if s[0].0@ != key {
            assert(s2.drop_first() =~= s.drop_first().update(i - 1, e));
            lemma_assoc_update_other_key(s.drop_first(), i - 1, e, key);
        }
    }
}

proof fn lemma_assoc_push(s: Seq<(String, SampleInfo)>, e: (String, SampleInfo), key: Seq<char>)
    ensures
        assoc_get(s.push(e), key) == if assoc_get(s, key) is Some {
            assoc_get(s, key)
        } else if e.0@ == key {
            Some(e.1)
        } else {
            None
        },
    decreases s.len(),
{
    if s.len() == 0 {
        assert(s.push(e).len() == 1);
        assert(s.push(e)[0] == e);
        assert(s.push(e).drop_first() =~= Seq::<(String, SampleInfo)>::empty());
        assert(assoc_get(Seq::<(String, SampleInfo)>::empty(), key) is None);
        assert(assoc_get(s, key) is None);
    } else {
        assert(s.push(e)[0] == s[0]);
        if s[0].0@ != key {
            assert(s.push(e).drop_first() =~= s.drop_first().push(e));
            lemma_assoc_push(s.drop_first(), e, key);
        }
    }
}

/// The in-memory sample table: relative path to sample shape, built
/// once at startup, read-only thereafter.
#[derive(Debug)]
pub struct SampleMap {
    entries: Vec<(String, SampleInfo)>,
}

impl SampleMap {
    /// Keys are pairwise distinct and every entry is a decodable shape.
    pub closed spec fn wf(self) -> bool {
        &&& forall|i: int, j: int|
            0 <= i < j < self.entries@.len() ==> self.entries@[i].0@ != self.entries@[j].0@
        &&& forall|i: int| 0 <= i < self.entries@.len() ==> (#[trigger] self.entries@[i].1).wf()
    }

    /// The sample recorded under `key`, if any.
    pub closed spec fn spec_get(self, key: Seq<char>) -> Option<SampleInfo> {
        assoc_get(self.entries@, key)
    }

    /// Number of entries in the catalog.
    pub closed spec fn spec_len(self) -> nat {
        self.entries@.len()
    }

    /// An empty catalog.
    pub fn new() -> (r: Self)
        ensures
            r.wf(),
            r.spec_len() == 0,
            forall|k: Seq<char>| r.spec_get(k) is None,
    {
        SampleMap { entries: Vec::new() }
    }

    /// Number of entries in the catalog.
    pub fn len(&self) -> (r: usize)
        ensures
            r == self.spec_len(),
    {
        self.entries.len()
    }

    /// Look a sample id up. `None` is the caller-visible unknown-sample
    /// case; it is an error for a play intent, never a crash.
    pub fn get(&self, key: &String) -> (r: Option<SampleInfo>)
        ensures
            r == self.spec_get(key@),
            self.wf() && r is Some ==> r->Some_0.wf(),
    {
        let n = self.entries.len();
        let mut i: usize = 0;
        while i < n
            invariant
                n == self.entries@.len(),
                i <= n,
                forall|j: int| 0 <= j < i ==> self.entries@[j].0@ != key@,
            decreases n - i,
        {
            if self.entries[i].0 == *key {
                proof {
                    lemma_assoc_first_match(self.entries@, i as int, key@);
                }
                return Some(self.entries[i].1);
            }
            i += 1;
        }
        proof {
            lemma_assoc_no_match(self.entries@, key@);
        }
        None
    }

    /// Whether the catalog has an entry for this sample id.
    pub fn contains_key(&self, key: &String) -> (r: bool)
        ensures
            r == (self.spec_get(key@) is Some),
    {
        self.get(key).is_some()
    }

    /// Record a decoded sample under its relative path. A colliding key
    /// overwrites the earlier entry; every other entry is untouched.
    pub fn insert(&mut self, key: String, info: SampleInfo)
        requires
            old(self).wf(),
            info.wf(),
        ensures
            final(self).wf(),
            final(self).spec_get(key@) == Some(info),
            forall|k: Seq<char>| k != key@ ==> final(self).spec_get(k) == old(self).spec_get(k),
            final(self).spec_len() == if old(self).spec_get(key@) is Some {
                old(self).spec_len() as int
            } else {
                old(self).spec_len() + 1 as int
            },
    {
        let n = self.entries.len();
        let mut i: usize = 0;
        while i < n
            invariant
                self == old(self),
                old(self).wf(),
                info.wf(),
                n == self.entries@.len(),
                i <= n,
                forall|j: int| 0 <= j < i ==> self.entries@[j].0@ != key@,
            decreases n - i,
        {
            if self.entries[i].0 == key {
                let ghost s0 = self.entries@;
                proof {
                    lemma_assoc_first_match(s0, i as int, key@);
                }
                let ghost e: (String, SampleInfo) = (key, info);
                self.entries[i] = (key, info);
                proof {
                    assert(self.entries@ =~= s0.update(i as int, e));
                    assert(forall|j: int|
                        0 <= j < s0.len() && j != i ==> self.entries@[j] == s0[j]);
                    assert(self.entries@[i as int].0@ == s0[i as int].0@);
                    lemma_assoc_first_match(self.entries@, i as int, key@);
                    assert forall|k: Seq<char>| k != key@ implies self.spec_get(k) == old(
                        self,
                    ).spec_get(k) by {
                        lemma_assoc_update_other_key(s0, i as int, e, k);
                    }
                    assert(self.wf());
                }
                return ;
            }
            i += 1;
        }
        let ghost s0 = self.entries@;
        proof {
            lemma_assoc_no_match(s0, key@);
        }
        let ghost e: (String, SampleInfo) = (key, info);
        self.entries.push((key, info));
        proof {
            assert(self.entries@ =~= s0.push(e));
            assert(forall|j: int| 0 <= j < s0.len() ==> self.entries@[j] == s0[j]);
            assert(self.entries@[s0.len() as int] == e);
            lemma_assoc_push(s0, e, key@);
            assert forall|k: Seq<char>| k != key@ implies self.spec_get(k) == old(self).spec_get(
                k,
            ) by {
                lemma_assoc_push(s0, e, k);
            }
            assert(self.wf());
        }
    }
}

/// A relative path's segments joined with platform-independent `/`
/// separators: the exact catalog key for a file under the assets root.
pub open spec fn spec_joined(parts: Seq<Seq<char>>) -> Seq<char>
    decreases parts.len(),
{
    if parts.len() == 0 {
        Seq::empty()
    } else if parts.len() == 1 {
        parts[0]
    } else {
        spec_joined(parts.drop_last()) + seq!['/'] + parts.last()
    }
}

/// Build the catalog key for a file from the segments of its path
/// relative to the assets root, joined with `/` on every platform.
pub fn catalog_key(parts: &Vec<String>) -> (r: String)
    ensures
        r@ == spec_joined(parts@.map_values(|p: String| p@)),
{
    proof {
        reveal_strlit("/");
    }
    let mut r = String::new();
    let n = parts.len();
    let mut i: usize = 0;
    while i < n
        invariant
            n == parts@.len(),
            i <= n,
            r@ == spec_joined(parts@.take(i as int).map_values(|p: String| p@)),
            "/"@ == seq!['/'],
        decreases n - i,
    {
        if i > 0 {
            r.append("/");
        }
        r.append(parts[i].as_str());
        proof {
            let mapped = parts@.take(i + 1 as int).map_values(|p: String| p@);
            let prev = parts@.take(i as int).map_values(|p: String| p@);
            assert(mapped.drop_last() =~= prev);
            assert(mapped.last() == parts@[i as int]@);
            assert(r@ =~= spec_joined(mapped));
        }
        i += 1;
    }
    proof {
        assert(parts@.take(n as int) =~= parts@);
    }
    r
}

} // verus!
