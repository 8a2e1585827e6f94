//! The configuration store this layer persists into, and the capability
//! probe that scores the machine's hardware codecs and caches the result
//! under the store's two codec keys.

use vstd::prelude::*;
use vstd::pervasive::unreached;
use crate::codec_info::{
    spec_best_of, infos_len_ok, infos_like, info_len_ok, ser_infos, CodecInfo, CodecInfos,
    DataFormat,
};
use crate::error::CodecError;

verus! {

/// The value of the boolean-like option gating hardware codec use.
#[derive(Clone, Copy, Debug, PartialEq, Eq, Structural)]
pub enum HwOption {
    Allow,
    Deny,
}

/// The configuration entries this layer reads and writes: one serialized
/// descriptor bundle per codec direction, and the option that gates
/// hardware codec use (absent means allowed).
pub struct ConfigStore {
    pub best_hw_encoders: Option<Vec<u8>>,
    pub best_hw_decoders: Option<Vec<u8>>,
    pub enable_hwcodec: Option<HwOption>,
}

/// The two store keys a descriptor bundle can be cached under.
#[derive(Clone, Copy, Debug, PartialEq, Eq, Structural)]
pub enum CfgKey {
    Encoder,
    Decoder,
}

/// The bytes cached under `key`, if any.
pub open spec fn store_entry(store: ConfigStore, key: CfgKey) -> Option<Seq<u8>> {
    match key {
        CfgKey::Encoder => match store.best_hw_encoders {
            Some(b) => Some(b@),
            None => None,
        },
        CfgKey::Decoder => match store.best_hw_decoders {
            Some(b) => Some(b@),
            None => None,
        },
    }
}

/// Whether hardware codec use is enabled: it is unless the option denies it.
pub open spec fn spec_hwcodec_enabled(store: ConfigStore) -> bool {
    store.enable_hwcodec != Some(HwOption::Deny)
}

impl ConfigStore {
    /// A store with nothing cached and the hardware option unset.
    pub fn empty() -> (r: ConfigStore)
        ensures
            r.best_hw_encoders is None,
            r.best_hw_decoders is None,
            r.enable_hwcodec is None,
    {
        ConfigStore { best_hw_encoders: None, best_hw_decoders: None, enable_hwcodec: None }
    }
}

/// Whether hardware codec capability may be used and advertised at all,
/// per the store's gating option; enabled when the option is absent.
pub fn check_hwcodec_config(store: &ConfigStore) -> (r: bool)
    ensures
        r == spec_hwcodec_enabled(*store),
{
    match &store.enable_hwcodec {
        Some(HwOption::Deny) => false,
        _ => true,
    }
}

/// The bundle a cache entry holds: the value whose serialization the entry
/// spells, if the entry parses at all.
pub open spec fn spec_cached(entry: Option<Seq<u8>>) -> Option<CodecInfos> {
    match entry {
        None => None,
        Some(b) => if exists|x: CodecInfos| infos_len_ok(x) && ser_infos(x) == b {
            Some(choose|x: CodecInfos| infos_len_ok(x) && ser_infos(x) == b)
        } else {
            None
        },
    }
}

/// The bundle a fresh scoring pass over `coders` yields.
pub open spec fn spec_scored(coders: Seq<CodecInfo>) -> CodecInfos {
    CodecInfos {
        h264: spec_best_of(coders, DataFormat::H264),
        h265: spec_best_of(coders, DataFormat::H265),
    }
}

/// The best entry per format is one of the probed entries.
pub proof fn lemma_best_of_is_element(coders: Seq<CodecInfo>, format: DataFormat)
    ensures
        spec_best_of(coders, format) matches Some(c) ==> exists|i: int|
            0 <= i < coders.len() && coders[i] == c,
    decreases coders.len(),
{
    if coders.len() > 0 {
        lemma_best_of_is_element(coders.drop_last(), format);
        if spec_best_of(coders, format) is Some {
            let c = spec_best_of(coders, format)->Some_0;
            if c == coders.last() {
                assert(coders[coders.len() - 1] == c);
            } else {
                let i = choose|i: int| 0 <= i < coders.drop_last().len() && coders.drop_last()[i]
                    == c;
                assert(coders[i] == c);
            }
        }
    }
}

/// Scoring probed entries with short names yields a bundle with short names.
pub proof fn lemma_scored_len_ok(coders: Seq<CodecInfo>)
    requires
        forall|i: int| 0 <= i < coders.len() ==> info_len_ok(#[trigger] coders[i]),
    ensures
        infos_len_ok(spec_scored(coders)),
{
    lemma_best_of_is_element(coders, DataFormat::H264);
    lemma_best_of_is_element(coders, DataFormat::H265);
}

/// An exact copy of a probed descriptor list.
fn duplicate_infos(v: &Vec<CodecInfo>) -> (r: Vec<CodecInfo>)
    ensures
        r@ == v@,
{
    let mut out: Vec<CodecInfo> = Vec::new();
    let n = v.len();
    for i in 0..n
        invariant
            n == v.len(),
            out@ == v@.take(i as int),
    {
        out.push(v[i].duplicate());
        proof {
            assert(out@ =~= v@.take(i + 1 as int));
        }
    }
    proof {
        assert(v@.take(n as int) =~= v@);
    }
    out
}

/// Discovers which hardware codecs this machine can use, scores them, and
/// caches the result in the configuration store. The probed descriptor
/// lists are what one enumeration pass yields on this machine; the platform
/// layer supplies them once, and the probe re-scores them on every cache
/// miss or forced refresh.
pub struct CapabilityProbe {
    pub store: ConfigStore,
    pub probed_encoders: Vec<CodecInfo>,
    pub probed_decoders: Vec<CodecInfo>,
}

impl CapabilityProbe {
    /// Every probed descriptor has a name short enough to cache.
    pub open spec fn wf(&self) -> bool {
        &&& forall|i: int|
            0 <= i < self.probed_encoders@.len() ==> info_len_ok(
                #[trigger] self.probed_encoders@[i],
            )
        &&& forall|i: int|
            0 <= i < self.probed_decoders@.len() ==> info_len_ok(
                #[trigger] self.probed_decoders@[i],
            )
    }

    pub fn new(store: ConfigStore, probed_encoders: Vec<CodecInfo>, probed_decoders: Vec<
        CodecInfo,
    >) -> (r: CapabilityProbe)
        requires
            forall|i: int|
                0 <= i < probed_encoders@.len() ==> info_len_ok(#[trigger] probed_encoders@[i]),
            forall|i: int|
                0 <= i < probed_decoders@.len() ==> info_len_ok(#[trigger] probed_decoders@[i]),
        ensures
            r.wf(),
            r.store == store,
            r.probed_encoders@ == probed_encoders@,
            r.probed_decoders@ == probed_decoders@,
    {
        CapabilityProbe { store, probed_encoders, probed_decoders }
    }

    /// Reads and parses the bundle cached under `key`. An absent or
    /// unparseable entry reports the cache as unavailable.
    pub fn get_config(&self, key: CfgKey) -> (r: Result<CodecInfos, CodecError>)
        ensures
            r matches Ok(v) ==> infos_len_ok(v) && store_entry(self.store, key) == Some(
                ser_infos(v),
            ),
            store_entry(self.store, key) is None ==> r is Err,
            spec_cached(store_entry(self.store, key)) matches Some(cv) ==> (r matches Ok(v)
                && infos_like(cv, v)),
            spec_cached(store_entry(self.store, key)) is None ==> r is Err,
    {
        let entry = match key {
            CfgKey::Encoder => &self.store.best_hw_encoders,
            CfgKey::Decoder => &self.store.best_hw_decoders,
        };
        match entry {
            None => Err(CodecError::CapabilityCacheUnavailable),
            Some(blob) => {
                let r = CodecInfos::deserialize(blob);
                proof {
                    if spec_cached(store_entry(self.store, key)) is Some {
                        let cv = spec_cached(store_entry(self.store, key))->Some_0;
                        assert(infos_len_ok(cv) && ser_infos(cv) == blob@);
                    }
                    if r is Ok {
                        let v = r->Ok_0;
                        assert(infos_len_ok(v) && ser_infos(v) == blob@);
                        assert(spec_cached(store_entry(self.store, key)) is Some);
                    }
                }
                r
            },
        }
    }

    /// Serializes `v` and caches it under `key`, replacing what was there.
    pub fn set_config(&mut self, key: CfgKey, v: &CodecInfos)
        requires
            infos_len_ok(*v),
        ensures
            store_entry(final(self).store, key) == Some(ser_infos(*v)),
            forall|k: CfgKey|
                k != key ==> #[trigger] store_entry(final(self).store, k) == store_entry(
                    old(self).store,
                    k,
                ),
            final(self).store.enable_hwcodec == old(self).store.enable_hwcodec,
            final(self).probed_encoders == old(self).probed_encoders,
            final(self).probed_decoders == old(self).probed_decoders,
    {
        let blob = v.serialize();
        match key {
            CfgKey::Encoder => {
                self.store.best_hw_encoders = Some(blob);
            },
            CfgKey::Decoder => {
                self.store.best_hw_decoders = Some(blob);
            },
        }
    }

    /// The best encoder descriptors. Answers from the cache unless
    /// `force_reset` is set or the cache is unusable; otherwise re-scores
    /// the probed entries, reports the result as refreshed, and, when
    /// `write` is set, caches it.
    pub fn best_encoders(&mut self, force_reset: bool, write: bool) -> (r: (CodecInfos, bool))
        requires
            old(self).wf(),
        ensures
            final(self).wf(),
            final(self).probed_encoders == old(self).probed_encoders,
            final(self).probed_decoders == old(self).probed_decoders,
            final(self).store.enable_hwcodec == old(self).store.enable_hwcodec,
            store_entry(final(self).store, CfgKey::Decoder) == store_entry(
                old(self).store,
                CfgKey::Decoder,
            ),
            r.1 == (force_reset || spec_cached(store_entry(old(self).store, CfgKey::Encoder))
                is None),
            !r.1 ==> *final(self) == *old(self) && (spec_cached(
                store_entry(old(self).store, CfgKey::Encoder),
            ) matches Some(cv) && infos_like(cv, r.0)),
            r.1 ==> r.0 == spec_scored(old(self).probed_encoders@) && infos_len_ok(r.0),
            r.1 && write ==> store_entry(final(self).store, CfgKey::Encoder) == Some(
                ser_infos(r.0),
            ),
            r.1 && !write ==> store_entry(final(self).store, CfgKey::Encoder) == store_entry(
                old(self).store,
                CfgKey::Encoder,
            ),
    {
        self.best_for_key(CfgKey::Encoder, force_reset, write)
    }

    /// The best decoder descriptors; see `best_encoders`.
    pub fn best_decoders(&mut self, force_reset: bool, write: bool) -> (r: (CodecInfos, bool))
        requires
            old(self).wf(),
        ensures
            final(self).wf(),
            final(self).probed_encoders == old(self).probed_encoders,
            final(self).probed_decoders == old(self).probed_decoders,
            final(self).store.enable_hwcodec == old(self).store.enable_hwcodec,
            store_entry(final(self).store, CfgKey::Encoder) == store_entry(
                old(self).store,
                CfgKey::Encoder,
            ),
            r.1 == (force_reset || spec_cached(store_entry(old(self).store, CfgKey::Decoder))
                is None),
            !r.1 ==> *final(self) == *old(self) && (spec_cached(
                store_entry(old(self).store, CfgKey::Decoder),
            ) matches Some(cv) && infos_like(cv, r.0)),
            r.1 ==> r.0 == spec_scored(old(self).probed_decoders@) && infos_len_ok(r.0),
            r.1 && write ==> store_entry(final(self).store, CfgKey::Decoder) == Some(
                ser_infos(r.0),
            ),
            r.1 && !write ==> store_entry(final(self).store, CfgKey::Decoder) == store_entry(
                old(self).store,
                CfgKey::Decoder,
            ),
    {
        self.best_for_key(CfgKey::Decoder, force_reset, write)
    }

    /// Shared body of the two probes.
    fn best_for_key(&mut self, key: CfgKey, force_reset: bool, write: bool) -> (r: (
        CodecInfos,
        bool,
    ))
        requires
            old(self).wf(),
        ensures
            final(self).wf(),
            final(self).probed_encoders == old(self).probed_encoders,
            final(self).probed_decoders == old(self).probed_decoders,
            final(self).store.enable_hwcodec == old(self).store.enable_hwcodec,
            forall|k: CfgKey|
                k != key ==> #[trigger] store_entry(final(self).store, k) == store_entry(
                    old(self).store,
                    k,
                ),
            r.1 == (force_reset || spec_cached(store_entry(old(self).store, key)) is None),
            !r.1 ==> *final(self) == *old(self) && (spec_cached(
                store_entry(old(self).store, key),
            ) matches Some(cv) && infos_like(cv, r.0)),
            r.1 ==> r.0 == spec_scored(
                match key {
                    CfgKey::Encoder => old(self).probed_encoders@,
                    CfgKey::Decoder => old(self).probed_decoders@,
                },
            ) && infos_len_ok(r.0),
            r.1 && write ==> store_entry(final(self).store, key) == Some(ser_infos(r.0)),
            r.1 && !write ==> store_entry(final(self).store, key) == store_entry(
                old(self).store,
                key,
            ),
    {
        let config = self.get_config(key);
        if !force_reset && config.is_ok() {
            match config {
                Ok(v) => (v, false),
                Err(_) => unreached(),
            }
        } else {
            let probed = match key {
                CfgKey::Encoder => duplicate_infos(&self.probed_encoders),
                CfgKey::Decoder => duplicate_infos(&self.probed_decoders),
            };
            let scored = CodecInfo::score(probed);
            proof {
                lemma_scored_len_ok(
                    match key {
                        CfgKey::Encoder => self.probed_encoders@,
                        CfgKey::Decoder => self.probed_decoders@,
                    },
                );
            }
            if write {
                self.set_config(key, &scored);
            }
            (scored, true)
        }
    }

    /// Lightweight periodic reconciliation: re-reads both caches without
    /// forcing enumeration, and rewrites the store only where a cache was
    /// missing or unusable, so a store that lost data heals itself.
    pub fn check_config(&mut self)
        requires
            old(self).wf(),
        ensures
            final(self).wf(),
            final(self).probed_encoders == old(self).probed_encoders,
            final(self).probed_decoders == old(self).probed_decoders,
            final(self).store.enable_hwcodec == old(self).store.enable_hwcodec,
            spec_cached(store_entry(old(self).store, CfgKey::Encoder)) is Some && spec_cached(
                store_entry(old(self).store, CfgKey::Decoder),
            ) is Some ==> *final(self) == *old(self),
            // A key that parsed is left alone even while the other key is
            // healed, so an immediately repeated call writes nothing.
            spec_cached(store_entry(old(self).store, CfgKey::Encoder)) is Some ==> store_entry(
                final(self).store,
                CfgKey::Encoder,
            ) == store_entry(old(self).store, CfgKey::Encoder),
            spec_cached(store_entry(old(self).store, CfgKey::Decoder)) is Some ==> store_entry(
                final(self).store,
                CfgKey::Decoder,
            ) == store_entry(old(self).store, CfgKey::Decoder),
            spec_cached(store_entry(old(self).store, CfgKey::Encoder)) is None ==> store_entry(
                final(self).store,
                CfgKey::Encoder,
            ) == Some(ser_infos(spec_scored(old(self).probed_encoders@))),
            spec_cached(store_entry(old(self).store, CfgKey::Decoder)) is None ==> store_entry(
                final(self).store,
                CfgKey::Decoder,
            ) == Some(ser_infos(spec_scored(old(self).probed_decoders@))),
    {
        let (encoders, update_encoders) = self.best_encoders(false, false);
        let (decoders, update_decoders) = self.best_decoders(false, false);
        if update_encoders || update_decoders {
            if update_encoders {
                self.set_config(CfgKey::Encoder, &encoders);
            }
            if update_decoders {
                self.set_config(CfgKey::Decoder, &decoders);
            }
        }
    }
}

/// A cache entry freshly written from a bundle reads back as that bundle:
/// probing right after a probe that wrote answers from the cache, without
/// re-scoring, and with a bundle alike field for field.
pub proof fn lemma_cache_read_after_write(v: CodecInfos)
    requires
        infos_len_ok(v),
    ensures
        spec_cached(Some(ser_infos(v))) matches Some(cv) && infos_like(v, cv),
{
    assert(infos_len_ok(v) && ser_infos(v) == ser_infos(v));
    assert(exists|x: CodecInfos| infos_len_ok(x) && ser_infos(x) == ser_infos(v));
    let cv = choose|x: CodecInfos| infos_len_ok(x) && ser_infos(x) == ser_infos(v);
    crate::codec_info::lemma_ser_infos_injective(v, cv);
}

} // verus!
