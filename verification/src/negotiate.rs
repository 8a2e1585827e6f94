//! The process-wide encoder negotiation service: each connected peer's
//! reported decode capability, this process's own decode capability, and the
//! currently selected hardware encoder name, recomputed on every peer event.

use vstd::prelude::*;
use vstd::pervasive::unreached;
use crate::codec_info::CodecInfos;
use crate::codec_info::ser_infos;
use crate::config::{
    check_hwcodec_config, spec_cached, spec_hwcodec_enabled, spec_scored, store_entry,
    CapabilityProbe, CfgKey, ConfigStore,
};
use crate::message::VideoCodecState;
use crate::SCORE_VPX;

verus! {

/// One peer event the negotiation reacts to: a capability report, a
/// disconnect, or a connect that never reported.
#[derive(Debug)]
pub enum EncoderUpdate {
    State(VideoCodecState),
    Remove,
    DisableHwIfNotExist,
}

/// How many entries of `s` carry peer id `id`.
pub open spec fn count_id(s: Seq<(i32, VideoCodecState)>, id: i32) -> int
    decreases s.len(),
{
    if s.len() == 0 {
        0
    } else {
        count_id(s.drop_last(), id) + if s.last().0 == id {
            1int
        } else {
            0int
        }
    }
}

/// The state recorded for peer `id`, if any.
pub open spec fn state_of(s: Seq<(i32, VideoCodecState)>, id: i32) -> Option<VideoCodecState>
    decreases s.len(),
{
    if s.len() == 0 {
        None
    } else if s.last().0 == id {
        Some(s.last().1)
    } else {
        state_of(s.drop_last(), id)
    }
}

/// A peer id is counted at least once exactly when a state is recorded
/// for it.
pub proof fn lemma_count_state(s: Seq<(i32, VideoCodecState)>, id: i32)
    ensures
        (count_id(s, id) >= 1) <==> state_of(s, id) is Some,
        count_id(s, id) >= 0,
    decreases s.len(),
{
    if s.len() > 0 {
        lemma_count_state(s.drop_last(), id);
    }
}

/// No peer id occurs twice.
pub open spec fn ids_unique(s: Seq<(i32, VideoCodecState)>) -> bool {
    forall|id: i32| #[trigger] count_id(s, id) <= 1
}

/// Sum of the peers' software decode scores.
pub open spec fn sum_vpx(s: Seq<(i32, VideoCodecState)>) -> int
    decreases s.len(),
{
    if s.len() == 0 {
        0
    } else {
        sum_vpx(s.drop_last()) + s.last().1.score_vpx
    }
}

/// Sum of the peers' H264 decode scores.
pub open spec fn sum_h264(s: Seq<(i32, VideoCodecState)>) -> int
    decreases s.len(),
{
    if s.len() == 0 {
        0
    } else {
        sum_h264(s.drop_last()) + s.last().1.score_h264
    }
}

/// Sum of the peers' H265 decode scores.
pub open spec fn sum_h265(s: Seq<(i32, VideoCodecState)>) -> int
    decreases s.len(),
{
    if s.len() == 0 {
        0
    } else {
        sum_h265(s.drop_last()) + s.last().1.score_h265
    }
}

/// Every peer reports a strictly positive H264 decode score.
pub open spec fn all_h264_positive(s: Seq<(i32, VideoCodecState)>) -> bool {
    forall|i: int| 0 <= i < s.len() ==> (#[trigger] s[i]).1.score_h264 > 0
}

/// Every peer reports a strictly positive H265 decode score.
pub open spec fn all_h265_positive(s: Seq<(i32, VideoCodecState)>) -> bool {
    forall|i: int| 0 <= i < s.len() ==> (#[trigger] s[i]).1.score_h265 > 0
}

/// H264 encoding is eligible: a local H264 encoder exists, at least one
/// peer is connected, and every connected peer can decode H264.
pub open spec fn spec_enabled_h264(best: CodecInfos, peers: Seq<(i32, VideoCodecState)>) -> bool {
    best.h264 is Some && peers.len() > 0 && all_h264_positive(peers)
}

pub open spec fn spec_enabled_h265(best: CodecInfos, peers: Seq<(i32, VideoCodecState)>) -> bool {
    best.h265 is Some && peers.len() > 0 && all_h265_positive(peers)
}

/// Aggregate software score: the local constant plus every peer's report.
pub open spec fn spec_score_vpx(peers: Seq<(i32, VideoCodecState)>) -> int {
    SCORE_VPX + sum_vpx(peers)
}

/// Aggregate H264 score: the local encoder's probed score, plus the peers'
/// reports only while H264 is eligible.
pub open spec fn spec_score_h264(best: CodecInfos, peers: Seq<(i32, VideoCodecState)>) -> int {
    (match best.h264 {
        Some(c) => c.score as int,
        None => 0,
    }) + if spec_enabled_h264(best, peers) {
        sum_h264(peers)
    } else {
        0
    }
}

pub open spec fn spec_score_h265(best: CodecInfos, peers: Seq<(i32, VideoCodecState)>) -> int {
    (match best.h265 {
        Some(c) => c.score as int,
        None => 0,
    }) + if spec_enabled_h265(best, peers) {
        sum_h265(peers)
    } else {
        0
    }
}

/// Which hardware format wins the selection, if any: H265 on a non-strict
/// win over both others, else H264 on a non-strict win, else none
/// (software). With no peers connected, always none.
pub open spec fn spec_selected_format(best: CodecInfos, peers: Seq<(i32, VideoCodecState)>) -> Option<
    crate::codec_info::DataFormat,
> {
    if peers.len() == 0 {
        None
    } else if spec_enabled_h265(best, peers) && spec_score_h265(best, peers) >= spec_score_vpx(
        peers,
    ) && spec_score_h265(best, peers) >= spec_score_h264(best, peers) {
        Some(crate::codec_info::DataFormat::H265)
    } else if spec_enabled_h264(best, peers) && spec_score_h264(best, peers) >= spec_score_vpx(
        peers,
    ) && spec_score_h264(best, peers) >= spec_score_h265(best, peers) {
        Some(crate::codec_info::DataFormat::H264)
    } else {
        None
    }
}

/// The encoder name the selection publishes: the winning descriptor's name.
pub open spec fn spec_selected_name(best: CodecInfos, peers: Seq<(i32, VideoCodecState)>) -> Option<
    Seq<char>,
> {
    match spec_selected_format(best, peers) {
        Some(crate::codec_info::DataFormat::H265) => Some(best.h265->Some_0.name@),
        Some(crate::codec_info::DataFormat::H264) => Some(best.h264->Some_0.name@),
        None => None,
    }
}

/// An optional published name carries exactly the characters of `b`.
pub open spec fn opt_name_like(a: Option<String>, b: Option<Seq<char>>) -> bool {
    match a {
        None => b is None,
        Some(s) => b matches Some(t) && s@ == t,
    }
}

/// The decode capability of a process with no live hardware decoders.
pub open spec fn spec_software_only_state() -> VideoCodecState {
    VideoCodecState { score_vpx: SCORE_VPX, score_h264: 0, score_h265: 0 }
}

/// The process-wide negotiation record: each connected peer's reported
/// decode state keyed by peer id, this process's own decode state, and the
/// published name of the currently selected hardware encoder.
///
/// One value of this type serves the whole process, owned by one task or
/// guarded by one lock; each update applies the peer event and recomputes
/// the selection against the fully applied peer set in the same call, so
/// no reader sees a selection computed against a partially updated set.
pub struct NegotiationState {
    pub peers: Vec<(i32, VideoCodecState)>,
    pub current_encoder_name: Option<String>,
    pub my_decoder_state: VideoCodecState,
}

impl NegotiationState {
    /// The recorded peers, in recording order.
    pub open spec fn peers(&self) -> Seq<(i32, VideoCodecState)> {
        self.peers@
    }

    pub open spec fn current_name(&self) -> Option<String> {
        self.current_encoder_name
    }

    pub open spec fn my_state(&self) -> VideoCodecState {
        self.my_decoder_state
    }

    pub open spec fn wf(&self) -> bool {
        ids_unique(self.peers@)
    }

    /// A fresh record: no peers, no selection, software-only own state.
    pub fn new() -> (r: NegotiationState)
        ensures
            r.wf(),
            r.peers().len() == 0,
            r.current_name() is None,
            r.my_state() == spec_software_only_state(),
    {
        NegotiationState {
            peers: Vec::new(),
            current_encoder_name: None,
            my_decoder_state: VideoCodecState {
                score_vpx: SCORE_VPX,
                score_h264: 0,
                score_h265: 0,
            },
        }
    }

    /// Whether a state is recorded for `id`.
    fn contains_peer(&self, id: i32) -> (r: bool)
        ensures
            r == (count_id(self.peers@, id) >= 1),
    {
        let n = self.peers.len();
        let mut found = false;
        for i in 0..n
            invariant
                n == self.peers@.len(),
                found == (count_id(self.peers@.take(i as int), id) >= 1),
                count_id(self.peers@.take(i as int), id) >= 0,
        {
            proof {
                assert(self.peers@.take(i + 1 as int).drop_last() =~= self.peers@.take(i as int));
            }
            if self.peers[i].0 == id {
                found = true;
            }
        }
        proof {
            assert(self.peers@.take(n as int) =~= self.peers@);
        }
        found
    }

    /// Records or replaces the state for `id`.
    fn upsert_peer(&mut self, id: i32, st: VideoCodecState)
        ensures
            count_id(final(self).peers@, id) == 1,
            state_of(final(self).peers@, id) == Some(st),
            forall|o: i32|
                o != id ==> #[trigger] count_id(final(self).peers@, o) == count_id(
                    old(self).peers@,
                    o,
                ),
            forall|o: i32|
                o != id ==> #[trigger] state_of(final(self).peers@, o) == state_of(
                    old(self).peers@,
                    o,
                ),
            old(self).wf() ==> final(self).wf(),
            final(self).current_encoder_name == old(self).current_encoder_name,
            final(self).my_decoder_state == old(self).my_decoder_state,
    {
        let n = self.peers.len();
        let mut out: Vec<(i32, VideoCodecState)> = Vec::new();
        let mut found = false;
        for i in 0..n
            invariant
                n == self.peers@.len(),
                found == (count_id(self.peers@.take(i as int), id) >= 1),
                count_id(self.peers@.take(i as int), id) >= 0,
                count_id(out@, id) == if found {
                    1int
                } else {
                    0int
                },
                found ==> state_of(out@, id) == Some(st),
                forall|o: i32|
                    o != id ==> #[trigger] count_id(out@, o) == count_id(
                        self.peers@.take(i as int),
                        o,
                    ),
                forall|o: i32|
                    o != id ==> #[trigger] state_of(out@, o) == state_of(
                        self.peers@.take(i as int),
                        o,
                    ),
        {
            let pair = self.peers[i];
            let ghost prev = out@;
            let ghost was_found = found;
            if pair.0 == id {
                if !found {
                    out.push((id, st));
                    found = true;
                }
            } else {
                out.push(pair);
            }
            proof {
                let cur = self.peers@.take(i + 1 as int);
                assert(cur.drop_last() =~= self.peers@.take(i as int));
                assert(cur.last() == self.peers@[i as int]);
                if out@ != prev {
                    assert(out@.drop_last() =~= prev);
                }
                assert forall|o: i32| o != id implies #[trigger] count_id(out@, o) == count_id(
                    cur,
                    o,
                ) by {
                    assert(count_id(cur, o) == count_id(self.peers@.take(i as int), o) + (
                    if pair.0 == o {
                        1int
                    } else {
                        0int
                    }));
                    if out@ != prev {
                        assert(count_id(out@, o) == count_id(prev, o) + (if out@.last().0 == o {
                            1int
                        } else {
                            0int
                        }));
                    }
                }
                assert forall|o: i32| o != id implies #[trigger] state_of(out@, o) == state_of(
                    cur,
                    o,
                ) by {
                    if pair.0 == o {
                        assert(state_of(cur, o) == Some(pair.1));
                        assert(out@.last() == pair);
                        assert(state_of(out@, o) == Some(pair.1));
                    } else {
                        assert(state_of(cur, o) == state_of(self.peers@.take(i as int), o));
                        if out@ != prev {
                            assert(out@.last().0 != o);
                            assert(state_of(out@, o) == state_of(prev, o));
                        }
                    }
                }
                assert(count_id(cur, id) == count_id(self.peers@.take(i as int), id) + (
                if pair.0 == id {
                    1int
                } else {
                    0int
                }));
                if out@ != prev {
                    assert(count_id(out@, id) == count_id(prev, id) + (if out@.last().0 == id {
                        1int
                    } else {
                        0int
                    }));
                    assert(state_of(out@, id) == if out@.last().0 == id {
                        Some(out@.last().1)
                    } else {
                        state_of(prev, id)
                    });
                }
            }
        }
        if !found {
            let ghost prev = out@;
            out.push((id, st));
            proof {
                assert(out@.drop_last() =~= prev);
                assert(count_id(out@, id) == count_id(prev, id) + 1);
                assert(state_of(out@, id) == Some(st));
                assert forall|o: i32| o != id implies #[trigger] count_id(out@, o) == count_id(
                    prev,
                    o,
                ) by {
                    assert(out@.last().0 != o);
                }
                assert forall|o: i32| o != id implies #[trigger] state_of(out@, o) == state_of(
                    prev,
                    o,
                ) by {
                    assert(out@.last().0 != o);
                }
            }
        }
        proof {
            assert(self.peers@.take(n as int) =~= self.peers@);
            assert(count_id(out@, id) == 1);
            assert(state_of(out@, id) == Some(st));
        }
        self.peers = out;
    }

    /// Drops the state recorded for `id`, if any.
    fn remove_peer(&mut self, id: i32)
        ensures
            count_id(final(self).peers@, id) == 0,
            state_of(final(self).peers@, id) is None,
            forall|o: i32|
                o != id ==> #[trigger] count_id(final(self).peers@, o) == count_id(
                    old(self).peers@,
                    o,
                ),
            forall|o: i32|
                o != id ==> #[trigger] state_of(final(self).peers@, o) == state_of(
                    old(self).peers@,
                    o,
                ),
            old(self).wf() ==> final(self).wf(),
            final(self).current_encoder_name == old(self).current_encoder_name,
            final(self).my_decoder_state == old(self).my_decoder_state,
    {
        let n = self.peers.len();
        let mut out: Vec<(i32, VideoCodecState)> = Vec::new();
        for i in 0..n
            invariant
                n == self.peers@.len(),
                count_id(out@, id) == 0,
                state_of(out@, id) is None,
                forall|o: i32|
                    o != id ==> #[trigger] count_id(out@, o) == count_id(
                        self.peers@.take(i as int),
                        o,
                    ),
                forall|o: i32|
                    o != id ==> #[trigger] state_of(out@, o) == state_of(
                        self.peers@.take(i as int),
                        o,
                    ),
        {
            let pair = self.peers[i];
            let ghost prev = out@;
            if pair.0 != id {
                out.push(pair);
            }
            proof {
                let cur = self.peers@.take(i + 1 as int);
                assert(cur.drop_last() =~= self.peers@.take(i as int));
                assert(cur.last() == self.peers@[i as int]);
                if out@ != prev {
                    assert(out@.drop_last() =~= prev);
                }
                assert forall|o: i32| o != id implies #[trigger] count_id(out@, o) == count_id(
                    cur,
                    o,
                ) by {
                    assert(count_id(cur, o) == count_id(self.peers@.take(i as int), o) + (
                    if pair.0 == o {
                        1int
                    } else {
                        0int
                    }));
                    if out@ != prev {
                        assert(count_id(out@, o) == count_id(prev, o) + (if out@.last().0 == o {
                            1int
                        } else {
                            0int
                        }));
                    }
                }
                assert forall|o: i32| o != id implies #[trigger] state_of(out@, o) == state_of(
                    cur,
                    o,
                ) by {
                    if pair.0 == o {
                        assert(state_of(cur, o) == Some(pair.1));
                        assert(out@.last() == pair);
                        assert(state_of(out@, o) == Some(pair.1));
                    } else {
                        assert(state_of(cur, o) == state_of(self.peers@.take(i as int), o));
                        if out@ != prev {
                            assert(out@.last().0 != o);
                            assert(state_of(out@, o) == state_of(prev, o));
                        }
                    }
                }
                if out@ != prev {
                    assert(count_id(out@, id) == count_id(prev, id) + (if out@.last().0 == id {
                        1int
                    } else {
                        0int
                    }));
                    assert(state_of(out@, id) == state_of(prev, id));
                }
            }
        }
        proof {
            assert(self.peers@.take(n as int) =~= self.peers@);
        }
        self.peers = out;
    }
}

impl NegotiationState {
    /// Every peer's H264 score is strictly positive.
    fn all_h264_pos(peers: &Vec<(i32, VideoCodecState)>) -> (r: bool)
        ensures
            r == all_h264_positive(peers@),
    {
        let n = peers.len();
        let mut ok = true;
        for i in 0..n
            invariant
                n == peers@.len(),
                ok == all_h264_positive(peers@.take(i as int)),
        {
            if peers[i].1.score_h264 <= 0 {
                proof {
                    assert(peers@.take(i + 1 as int)[i as int].1.score_h264 <= 0);
                }
                ok = false;
            } else {
                proof {
                    if ok {
                        assert forall|k: int| 0 <= k < i + 1 implies (#[trigger] peers@.take(
                            i + 1 as int,
                        )[k]).1.score_h264 > 0 by {
                            if k < i {
                                assert(peers@.take(i as int)[k].1.score_h264 > 0);
                            }
                        }
                    } else {
                        let k = choose|k: int|
                            0 <= k < i && !((#[trigger] peers@.take(i as int)[k]).1.score_h264
                                > 0);
                        assert(peers@.take(i + 1 as int)[k].1.score_h264 <= 0);
                    }
                }
            }
        }
        proof {
            assert(peers@.take(n as int) =~= peers@);
        }
        ok
    }

    /// Every peer's H265 score is strictly positive.
    fn all_h265_pos(peers: &Vec<(i32, VideoCodecState)>) -> (r: bool)
        ensures
            r == all_h265_positive(peers@),
    {
        let n = peers.len();
        let mut ok = true;
        for i in 0..n
            invariant
                n == peers@.len(),
                ok == all_h265_positive(peers@.take(i as int)),
        {
            if peers[i].1.score_h265 <= 0 {
                proof {
                    assert(peers@.take(i + 1 as int)[i as int].1.score_h265 <= 0);
                }
                ok = false;
            } else {
                proof {
                    if ok {
                        assert forall|k: int| 0 <= k < i + 1 implies (#[trigger] peers@.take(
                            i + 1 as int,
                        )[k]).1.score_h265 > 0 by {
                            if k < i {
                                assert(peers@.take(i as int)[k].1.score_h265 > 0);
                            }
                        }
                    } else {
                        let k = choose|k: int|
                            0 <= k < i && !((#[trigger] peers@.take(i as int)[k]).1.score_h265
                                > 0);
                        assert(peers@.take(i + 1 as int)[k].1.score_h265 <= 0);
                    }
                }
            }
        }
        proof {
            assert(peers@.take(n as int) =~= peers@);
        }
        ok
    }

    /// The three peer score sums, in one pass.
    fn sum_scores(peers: &Vec<(i32, VideoCodecState)>) -> (r: (i128, i128, i128))
        ensures
            r.0 == sum_vpx(peers@),
            r.1 == sum_h264(peers@),
            r.2 == sum_h265(peers@),
            peers@.len() <= usize::MAX,
            -0x80000000int * peers@.len() <= r.0 <= 0x80000000int * peers@.len(),
            -0x80000000int * peers@.len() <= r.1 <= 0x80000000int * peers@.len(),
            -0x80000000int * peers@.len() <= r.2 <= 0x80000000int * peers@.len(),
    {
        let n = peers.len();
        let mut vpx: i128 = 0;
        let mut h264: i128 = 0;
        let mut h265: i128 = 0;
        for i in 0..n
            invariant
                n == peers@.len(),
                vpx == sum_vpx(peers@.take(i as int)),
                h264 == sum_h264(peers@.take(i as int)),
                h265 == sum_h265(peers@.take(i as int)),
                -0x80000000int * (i as int) <= vpx <= 0x80000000int * (i as int),
                -0x80000000int * (i as int) <= h264 <= 0x80000000int * (i as int),
                -0x80000000int * (i as int) <= h265 <= 0x80000000int * (i as int),
        {
            proof {
                assert(peers@.take(i + 1 as int).drop_last() =~= peers@.take(i as int));
                assert(peers@.take(i + 1 as int).last() == peers@[i as int]);
            }
            let st = peers[i].1;
            vpx = vpx + st.score_vpx as i128;
            h264 = h264 + st.score_h264 as i128;
            h265 = h265 + st.score_h265 as i128;
        }
        proof {
            assert(peers@.take(n as int) =~= peers@);
        }
        (vpx, h264, h265)
    }

    /// Recomputes which hardware encoder, if any, the whole connected peer
    /// set can use best; returns its name, or None for the software
    /// fallback.
    pub fn select_encoder(best: &CodecInfos, peers: &Vec<(i32, VideoCodecState)>) -> (r: Option<
        String,
    >)
        ensures
            opt_name_like(r, spec_selected_name(*best, peers@)),
    {
        if peers.len() == 0 {
            return None;
        }
        let enabled_h264 = best.h264.is_some() && Self::all_h264_pos(peers);
        let enabled_h265 = best.h265.is_some() && Self::all_h265_pos(peers);
        let (sum_v, sum_4, sum_5) = Self::sum_scores(peers);
        let score_vpx: i128 = crate::SCORE_VPX as i128 + sum_v;
        let local_h264: i128 = match &best.h264 {
            Some(c) => c.score as i128,
            None => 0,
        };
        let local_h265: i128 = match &best.h265 {
            Some(c) => c.score as i128,
            None => 0,
        };
        let score_h264: i128 = local_h264 + if enabled_h264 {
            sum_4
        } else {
            0
        };
        let score_h265: i128 = local_h265 + if enabled_h265 {
            sum_5
        } else {
            0
        };
        if enabled_h265 && score_h265 >= score_vpx && score_h265 >= score_h264 {
            match &best.h265 {
                Some(c) => Some(c.name.clone()),
                None => unreached(),
            }
        } else if enabled_h264 && score_h264 >= score_vpx && score_h264 >= score_h265 {
            match &best.h264 {
                Some(c) => Some(c.name.clone()),
                None => unreached(),
            }
        } else {
            None
        }
    }

    /// Applies one peer event and republishes the encoder selection against
    /// the updated peer set: record or replace a report, drop a
    /// disconnected peer, or default a silent peer to hardware-disabled.
    /// With peers connected, the local best encoders are probed (writing
    /// the cache on a miss) and the selection recomputed; with none, the
    /// selection resets to software.
    pub fn update_video_encoder(
        &mut self,
        probe: &mut CapabilityProbe,
        id: i32,
        update: EncoderUpdate,
    )
        requires
            old(self).wf(),
            old(probe).wf(),
        ensures
            final(self).wf(),
            final(probe).wf(),
            final(self).my_decoder_state == old(self).my_decoder_state,
            match update {
                EncoderUpdate::State(st) => count_id(final(self).peers@, id) == 1 && state_of(
                    final(self).peers@,
                    id,
                ) == Some(st),
                EncoderUpdate::Remove => count_id(final(self).peers@, id) == 0,
                EncoderUpdate::DisableHwIfNotExist => count_id(final(self).peers@, id) == 1
                    && state_of(final(self).peers@, id) == (match state_of(
                    old(self).peers@,
                    id,
                ) {
                    Some(st) => Some(st),
                    None => Some(
                        VideoCodecState { score_vpx: 0, score_h264: 0, score_h265: 0 },
                    ),
                }),
            },
            forall|o: i32|
                o != id ==> #[trigger] state_of(final(self).peers@, o) == state_of(
                    old(self).peers@,
                    o,
                ),
            final(probe).probed_encoders == old(probe).probed_encoders,
            final(probe).probed_decoders == old(probe).probed_decoders,
            final(probe).store.enable_hwcodec == old(probe).store.enable_hwcodec,
            final(self).peers@.len() == 0 ==> final(self).current_encoder_name is None
                && *final(probe) == *old(probe),
            final(self).peers@.len() > 0 ==> opt_name_like(
                final(self).current_encoder_name,
                spec_selected_name(spec_probe_best_encoders(*old(probe)), final(self).peers@),
            ),
            // With peers connected, the probe ran without forcing: a usable
            // encoder cache is left untouched, a missing or unusable one is
            // written with the freshly scored probe result, and the decoder
            // cache is never touched.
            final(self).peers@.len() > 0 ==> {
                &&& store_entry(final(probe).store, CfgKey::Decoder) == store_entry(
                    old(probe).store,
                    CfgKey::Decoder,
                )
                &&& (spec_cached(store_entry(old(probe).store, CfgKey::Encoder)) is Some
                    ==> *final(probe) == *old(probe))
                &&& (spec_cached(store_entry(old(probe).store, CfgKey::Encoder)) is None
                    ==> store_entry(final(probe).store, CfgKey::Encoder) == Some(
                    ser_infos(spec_scored(old(probe).probed_encoders@)),
                ))
            },
    {
        match update {
            EncoderUpdate::State(st) => {
                self.upsert_peer(id, st);
            },
            EncoderUpdate::Remove => {
                self.remove_peer(id);
            },
            EncoderUpdate::DisableHwIfNotExist => {
                let present = self.contains_peer(id);
                proof {
                    lemma_count_state(self.peers@, id);
                }
                if !present {
                    self.upsert_peer(
                        id,
                        VideoCodecState { score_vpx: 0, score_h264: 0, score_h265: 0 },
                    );
                } else {
                    proof {
                        assert(count_id(self.peers@, id) == 1);
                    }
                }
            },
        }
        if self.peers.len() > 0 {
            let (best, _) = probe.best_encoders(false, true);
            proof {
                lemma_selection_respects_like(
                    spec_probe_best_encoders(*old(probe)),
                    best,
                    self.peers@,
                );
            }
            self.current_encoder_name = Self::select_encoder(&best, &self.peers);
        } else {
            self.current_encoder_name = None;
        }
    }

    /// Stores this process's own decode capability, as a freshly built
    /// decoder reports it.
    pub fn set_own_decode_state(&mut self, st: VideoCodecState)
        ensures
            final(self).my_decoder_state == st,
            final(self).peers == old(self).peers,
            final(self).current_encoder_name == old(self).current_encoder_name,
    {
        self.my_decoder_state = st;
    }

    /// Forgets any hardware decode capability, keeping only the software
    /// score: what destroying a decoder leaves behind.
    pub fn reset_own_decode_state(&mut self)
        ensures
            final(self).my_decoder_state == spec_software_only_state(),
            final(self).peers == old(self).peers,
            final(self).current_encoder_name == old(self).current_encoder_name,
    {
        self.my_decoder_state = VideoCodecState {
            score_vpx: crate::SCORE_VPX,
            score_h264: 0,
            score_h265: 0,
        };
    }

    /// The published hardware encoder selection, or None when hardware
    /// codec use is disabled in the configuration store.
    pub fn current_hw_encoder_name(&self, store: &ConfigStore) -> (r: Option<String>)
        ensures
            spec_hwcodec_enabled(*store) ==> r == self.current_encoder_name,
            !spec_hwcodec_enabled(*store) ==> r is None,
    {
        if check_hwcodec_config(store) {
            match &self.current_encoder_name {
                Some(s) => Some(s.clone()),
                None => None,
            }
        } else {
            None
        }
    }

    /// The decode capability this process reports to its peers: its own
    /// record while hardware codec use is enabled, else software only.
    pub fn video_codec_state(&self, store: &ConfigStore) -> (r: VideoCodecState)
        ensures
            r == spec_video_codec_state(*self, *store),
    {
        if check_hwcodec_config(store) {
            self.my_decoder_state
        } else {
            VideoCodecState { score_vpx: crate::SCORE_VPX, score_h264: 0, score_h265: 0 }
        }
    }
}

/// What this process reports as its decode capability, given the store's
/// gating option.
pub open spec fn spec_video_codec_state(n: NegotiationState, store: ConfigStore) -> VideoCodecState {
    if spec_hwcodec_enabled(store) {
        n.my_decoder_state
    } else {
        spec_software_only_state()
    }
}

/// The encoder bundle a non-forced probe answers with: the cached bundle
/// if the cache parses, else a fresh scoring of the probed entries.
pub open spec fn spec_probe_best_encoders(p: CapabilityProbe) -> CodecInfos {
    match crate::config::spec_cached(
        crate::config::store_entry(p.store, crate::config::CfgKey::Encoder),
    ) {
        Some(cv) => cv,
        None => crate::config::spec_scored(p.probed_encoders@),
    }
}

/// Bundles alike field for field select alike: same winning format and the
/// same published name.
pub proof fn lemma_selection_respects_like(
    b1: CodecInfos,
    b2: CodecInfos,
    peers: Seq<(i32, VideoCodecState)>,
)
    requires
        crate::codec_info::infos_like(b1, b2),
    ensures
        spec_selected_format(b1, peers) == spec_selected_format(b2, peers),
        spec_selected_name(b1, peers) == spec_selected_name(b2, peers),
{
}

/// A peer that cannot decode H264 vetoes H264: whatever the scores, the
/// selection never lands on H264 while some connected peer reports a
/// non-positive H264 score.
pub proof fn lemma_h264_needs_every_peer(
    best: CodecInfos,
    peers: Seq<(i32, VideoCodecState)>,
    i: int,
)
    requires
        0 <= i < peers.len(),
        peers[i].1.score_h264 <= 0,
    ensures
        spec_selected_format(best, peers) != Some(crate::codec_info::DataFormat::H264),
{
    assert(!all_h264_positive(peers));
}

/// The tie break: with both hardware codecs eligible and all three
/// aggregate scores equal, H265 is selected.
pub proof fn lemma_tie_break_prefers_h265(best: CodecInfos, peers: Seq<(i32, VideoCodecState)>)
    requires
        spec_enabled_h264(best, peers),
        spec_enabled_h265(best, peers),
        spec_score_h265(best, peers) == spec_score_h264(best, peers),
        spec_score_h264(best, peers) == spec_score_vpx(peers),
    ensures
        spec_selected_format(best, peers) == Some(crate::codec_info::DataFormat::H265),
{
}

/// With no peers connected, the selection is always software.
pub proof fn lemma_no_peers_selects_software(best: CodecInfos, peers: Seq<(i32, VideoCodecState)>)
    requires
        peers.len() == 0,
    ensures
        spec_selected_format(best, peers) is None,
        spec_selected_name(best, peers) is None,
{
}

/// Once the own decode record is software-only, the reported state carries
/// no hardware scores, whatever the store's gating option says.
pub proof fn lemma_destroyed_decoder_reports_software(n: NegotiationState, store: ConfigStore)
    requires
        n.my_decoder_state == spec_software_only_state(),
    ensures
        spec_video_codec_state(n, store).score_vpx == crate::SCORE_VPX,
        spec_video_codec_state(n, store).score_h264 == 0,
        spec_video_codec_state(n, store).score_h265 == 0,
{
}

} // verus!
