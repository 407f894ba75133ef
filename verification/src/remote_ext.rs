//! Setting up a copy of the storage of a remote chain.
//!
//! A [`Builder`] says which chain to scrape, at which block, which modules
//! of it, and which keys to set by hand. Scraping itself is done by its
//! caller; the builder says what to download and in which order the
//! downloaded and the injected pairs go into the copy, where a later pair
//! replaces an earlier one of the same key.

use vstd::prelude::*;
use vstd::string::*;

verus! {

/// The hash of a block.
pub type BlockHash = [u8; 32];

/// A key of the storage and the value under it.
pub type KeyValue = (Vec<u8>, Vec<u8>);

/// The 128-bit XX hash of `data`, as 16 bytes.
pub uninterp spec fn twox_128_of(data: Seq<u8>) -> Seq<u8>;

/// Calls `sp_crypto_hashing::twox_128`, which hashes `data` with the
/// 64-bit XX hash under the seeds 0 and 1 and returns the two results, each
/// as eight little-endian bytes.
#[verifier::external_body]
fn twox_128(data: &[u8]) -> (digest: [u8; 16])
    ensures
        digest@ == twox_128_of(data@),
{
    sp_crypto_hashing::twox_128(data)
}

/// The views of the pairs in `pairs`.
pub open spec fn pair_views(pairs: Seq<KeyValue>) -> Seq<(Seq<u8>, Seq<u8>)> {
    pairs.map_values(|p: KeyValue| (p.0@, p.1@))
}

/// The views of the names in `names`.
pub open spec fn name_views(names: Seq<String>) -> Seq<Seq<char>> {
    names.map_values(|s: String| s@)
}

/// The views of the keys in `keys`.
pub open spec fn key_views(keys: Seq<Vec<u8>>) -> Seq<Seq<u8>> {
    keys.map_values(|k: Vec<u8>| k@)
}

/// The address that is scraped where none was given.
pub open spec fn default_uri() -> Seq<char> {
    "ws://localhost:9944"@
}

/// What a builder was told.
pub struct BuilderView {
    /// The block to scrape at, if one was chosen.
    pub at: Option<Seq<u8>>,
    /// The address of the chain, if one was given.
    pub uri: Option<Seq<char>>,
    /// The pairs to set by hand, in the order in which they were given.
    pub inject: Seq<(Seq<u8>, Seq<u8>)>,
    /// The modules to scrape, in the order in which they were given.
    pub module_filter: Seq<Seq<char>>,
}

impl BuilderView {
    /// A builder that was told nothing.
    pub open spec fn untold() -> BuilderView {
        BuilderView { at: None, uri: None, inject: Seq::empty(), module_filter: Seq::empty() }
    }

    /// The prefixes of the keys to download: the hash of the name of each
    /// chosen module, or, where no module was chosen, the empty prefix,
    /// under which every key lies.
    pub open spec fn prefixes(self) -> Seq<Seq<u8>> {
        if self.module_filter.len() == 0 {
            seq![Seq::<u8>::empty()]
        } else {
            Seq::new(
                self.module_filter.len(),
                |i: int| twox_128_of(vstd::utf8::encode_utf8(self.module_filter[i])),
            )
        }
    }
}

/// Builder for remote-externalities.
#[derive(Debug)]
pub struct Builder {
    at: Option<BlockHash>,
    uri: Option<String>,
    inject: Vec<KeyValue>,
    module_filter: Vec<String>,
}

impl View for Builder {
    type V = BuilderView;

    closed spec fn view(&self) -> BuilderView {
        BuilderView {
            at: match self.at {
                Some(hash) => Some(hash@),
                None => None,
            },
            uri: match self.uri {
                Some(uri) => Some(uri@),
                None => None,
            },
            inject: pair_views(self.inject@),
            module_filter: name_views(self.module_filter@),
        }
    }
}

impl Default for Builder {
    fn default() -> (b: Builder)
        ensures
            b@ == BuilderView::untold(),
    {
        let b = Builder { at: None, uri: None, inject: Vec::new(), module_filter: Vec::new() };
        assert(b@.inject =~= Seq::empty());
        assert(b@.module_filter =~= Seq::empty());
        b
    }
}

impl Builder {
    /// Create a new builder.
    pub fn new() -> (b: Builder)
        ensures
            b@ == BuilderView::untold(),
    {
        Default::default()
    }

    /// Scrape the chain at the given block hash.
    ///
    /// If not set, latest finalized will be used.
    pub fn at(self, at: BlockHash) -> (b: Builder)
        ensures
            b@ == (BuilderView { at: Some(at@), ..self@ }),
    {
        let mut b = self;
        b.at = Some(at);
        b
    }

    /// Look for a chain at the given URI.
    ///
    /// If not set, `ws://localhost:9944` will be used.
    pub fn uri(self, uri: String) -> (b: Builder)
        ensures
            b@ == (BuilderView { uri: Some(uri@), ..self@ }),
    {
        let mut b = self;
        b.uri = Some(uri);
        b
    }

    /// Inject a manual list of key and values to the storage.
    pub fn inject(self, injections: &[KeyValue]) -> (b: Builder)
        ensures
            b@ == (BuilderView { inject: self@.inject + pair_views(injections@), ..self@ }),
    {
        let mut b = self;
        let ghost before = b.inject@;
        let mut i: usize = 0;
        while i < injections.len()
            invariant
                i <= injections@.len(),
                b.at == self.at,
                b.uri == self.uri,
                b.module_filter == self.module_filter,
                pair_views(b.inject@) == pair_views(before) + pair_views(
                    injections@.subrange(0, i as int),
                ),
            decreases injections@.len() - i,
        {
            let ghost sofar = b.inject@;
            let key = injections[i].0.clone();
            let value = injections[i].1.clone();
            b.inject.push((key, value));
            proof {
                assert(injections@.subrange(0, i + 1) =~= injections@.subrange(0, i as int).push(
                    injections@[i as int],
                ));
                assert(pair_views(b.inject@) =~= pair_views(sofar).push((key@, value@)));
                assert(pair_views(b.inject@) =~= pair_views(before) + pair_views(
                    injections@.subrange(0, i + 1),
                ));
            }
            i += 1;
        }
        assert(injections@.subrange(0, i as int) =~= injections@);
        b
    }

    /// Scrape only this module.
    ///
    /// If used multiple times, all of the given modules will be used, else the entire chain.
    pub fn module(self, module: &str) -> (b: Builder)
        ensures
            b@ == (BuilderView { module_filter: self@.module_filter.push(module@), ..self@ }),
    {
        let mut b = self;
        let ghost before = b.module_filter@;
        b.module_filter.push(String::from_str(module));
        assert(name_views(b.module_filter@) =~= name_views(before).push(module@));
        b
    }

    /// The address of the chain to scrape.
    pub fn target(&self) -> (uri: String)
        ensures
            uri@ == match self@.uri {
                Some(given) => given,
                None => default_uri(),
            },
    {
        match &self.uri {
            Some(given) => given.clone(),
            None => String::from_str("ws://localhost:9944"),
        }
    }

    /// The block to scrape at, given the head of the chain: the chosen
    /// block, or the head where none was chosen.
    pub fn block(&self, head: BlockHash) -> (at: BlockHash)
        ensures
            at@ == match self@.at {
                Some(chosen) => chosen,
                None => head@,
            },
    {
        match self.at {
            Some(chosen) => chosen,
            None => head,
        }
    }

    /// The prefixes of the keys to download, in the order of the download.
    pub fn prefixes(&self) -> (out: Vec<Vec<u8>>)
        ensures
            key_views(out@) == self@.prefixes(),
            out@.len() == self@.prefixes().len(),
            forall|i: int| 0 <= i < out@.len() ==> (#[trigger] out@[i])@ == self@.prefixes()[i],
    {
        let mut out: Vec<Vec<u8>> = Vec::new();
        if self.module_filter.len() == 0 {
            out.push(Vec::new());
            assert(key_views(out@) =~= seq![Seq::<u8>::empty()]);
            return out;
        }
        let mut i: usize = 0;
        while i < self.module_filter.len()
            invariant
                i <= self.module_filter@.len(),
                out@.len() == i,
                forall|j: int|
                    0 <= j < i ==> (#[trigger] out@[j])@ == twox_128_of(
                        vstd::utf8::encode_utf8(self.module_filter@[j]@),
                    ),
            decreases self.module_filter@.len() - i,
        {
            let digest = twox_128(self.module_filter[i].as_str().as_bytes());
            let mut prefix: Vec<u8> = Vec::new();
            let mut k: usize = 0;
            while k < 16
                invariant
                    k <= 16,
                    prefix@ == digest@.subrange(0, k as int),
                decreases 16 - k,
            {
                prefix.push(digest[k]);
                assert(prefix@ =~= digest@.subrange(0, k + 1));
                k += 1;
            }
            assert(prefix@ =~= digest@);
            out.push(prefix);
            i += 1;
        }
        assert(key_views(out@) =~= self@.prefixes());
        out
    }

    /// Puts together what goes into the copy of the storage, in the order
    /// in which it is inserted: what was scraped first, then the injected
    /// pairs, so that an injected pair replaces a scraped one of its key.
    pub fn build(self, scraped: Vec<KeyValue>) -> (out: Vec<KeyValue>)
        ensures
            pair_views(out@) == pair_views(scraped@) + self@.inject,
            out@.len() == scraped@.len() + self@.inject.len(),
    {
        let mut out = scraped;
        let mut inject = self.inject;
        let ghost first = out@;
        let ghost second = inject@;
        out.append(&mut inject);
        assert(pair_views(out@) =~= pair_views(first) + pair_views(second));
        out
    }
}

} // verus!
