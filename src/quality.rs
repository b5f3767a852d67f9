use vstd::prelude::*;

use crate::model::{AudioConfig, AudioConfigView, SessionAudioQuality, SessionStats};

verus! {

/// Above this latency (ms) the network counts as slow.
pub const SLOW_LATENCY_MS: u32 = 300;

/// Above this latency (ms), and up to the slow bound, the network counts as normal.
pub const NORMAL_LATENCY_MS: u32 = 150;

/// Bitrate (bit/s) and jitter buffer (ms) on a slow network.
pub const LOW_BITRATE: u32 = 64_000;

pub const LOW_JITTER_BUFFER_MS: u32 = 200;

/// Bitrate (bit/s) and jitter buffer (ms) on a normal network.
pub const MEDIUM_BITRATE: u32 = 128_000;

pub const MEDIUM_JITTER_BUFFER_MS: u32 = 100;

/// Bitrate (bit/s) when the quality is high.
pub const HIGH_BITRATE: u32 = 256_000;

/// The tier that a latency report leads to; a fast network leaves the prior tier.
pub open spec fn tier_for_latency(latency: u32, prior: SessionAudioQuality) -> SessionAudioQuality {
    if latency > SLOW_LATENCY_MS {
        SessionAudioQuality::Low
    } else if latency > NORMAL_LATENCY_MS {
        SessionAudioQuality::Medium
    } else {
        prior
    }
}

/// The audio parameters after a latency report.
pub open spec fn audio_for_latency(
    latency: u32,
    adaptive: bool,
    audio: AudioConfigView,
) -> AudioConfigView {
    if adaptive && latency > SLOW_LATENCY_MS {
        AudioConfigView {
            network_bitrate: LOW_BITRATE,
            jitter_buffer_size: LOW_JITTER_BUFFER_MS,
            ..audio
        }
    } else if adaptive && latency > NORMAL_LATENCY_MS {
        AudioConfigView {
            network_bitrate: MEDIUM_BITRATE,
            jitter_buffer_size: MEDIUM_JITTER_BUFFER_MS,
            ..audio
        }
    } else {
        audio
    }
}

/// The statistics after a latency report.
pub open spec fn stats_for_latency(latency: u32, stats: SessionStats) -> SessionStats {
    SessionStats {
        network_latency: latency,
        audio_quality: tier_for_latency(latency, stats.audio_quality),
        ..stats
    }
}

/// The statistics after quality is recomputed from the latest measured latency.
pub open spec fn stats_recomputed(stats: SessionStats) -> SessionStats {
    stats_for_latency(stats.network_latency, stats)
}

/// The audio parameters after quality is recomputed from the latest measured latency.
pub open spec fn audio_recomputed(
    stats: SessionStats,
    adaptive: bool,
    audio: AudioConfigView,
) -> AudioConfigView {
    let a = audio_for_latency(stats.network_latency, adaptive, audio);
    if adaptive && stats_recomputed(stats).audio_quality == SessionAudioQuality::High {
        AudioConfigView { network_bitrate: HIGH_BITRATE, ..a }
    } else {
        a
    }
}

/// A latency report decides tier, bitrate and jitter buffer from the latency
/// alone: above 300 ms low quality at 64 kbit/s with a 200 ms buffer, above
/// 150 ms medium quality at 128 kbit/s with a 100 ms buffer (bitrate and
/// buffer only where adaptive), and at most 150 ms nothing changes.
pub proof fn lemma_latency_tiers(latency: u32, stats: SessionStats, audio: AudioConfigView)
    ensures
        latency > SLOW_LATENCY_MS ==> stats_for_latency(latency, stats).audio_quality
            == SessionAudioQuality::Low && audio_for_latency(latency, true, audio).network_bitrate
            == LOW_BITRATE && audio_for_latency(latency, true, audio).jitter_buffer_size
            == LOW_JITTER_BUFFER_MS,
        NORMAL_LATENCY_MS < latency <= SLOW_LATENCY_MS ==> stats_for_latency(
            latency,
            stats,
        ).audio_quality == SessionAudioQuality::Medium && audio_for_latency(
            latency,
            true,
            audio,
        ).network_bitrate == MEDIUM_BITRATE && audio_for_latency(
            latency,
            true,
            audio,
        ).jitter_buffer_size == MEDIUM_JITTER_BUFFER_MS,
        latency <= NORMAL_LATENCY_MS ==> stats_for_latency(latency, stats).audio_quality == stats.audio_quality
            && audio_for_latency(latency, true, audio) == audio,
        audio_for_latency(latency, false, audio) == audio,
{
}

/// The quality tier for a measured latency, given the tier before it.
pub fn calculate_quality(latency: u32, prior: SessionAudioQuality) -> (r: SessionAudioQuality)
    ensures
        r == tier_for_latency(latency, prior),
{
    if latency > SLOW_LATENCY_MS {
        SessionAudioQuality::Low
    } else if latency > NORMAL_LATENCY_MS {
        SessionAudioQuality::Medium
    } else {
        prior
    }
}

/// Records a measured latency: sets the tier and, where bitrate is adaptive,
/// the bitrate and jitter buffer.
pub fn apply_latency(
    stats: &mut SessionStats,
    audio: &mut AudioConfig,
    adaptive: bool,
    latency: u32,
)
    ensures
        *final(stats) == stats_for_latency(latency, *old(stats)),
        final(audio)@ == audio_for_latency(latency, adaptive, old(audio)@),
{
    stats.network_latency = latency;
    stats.audio_quality = calculate_quality(latency, stats.audio_quality);
    if adaptive {
        if latency > SLOW_LATENCY_MS {
            audio.network_bitrate = LOW_BITRATE;
            audio.jitter_buffer_size = LOW_JITTER_BUFFER_MS;
        } else if latency > NORMAL_LATENCY_MS {
            audio.network_bitrate = MEDIUM_BITRATE;
            audio.jitter_buffer_size = MEDIUM_JITTER_BUFFER_MS;
        }
    }
}

/// Recomputes quality from the latest measured latency; a high tier with
/// adaptive bitrate raises the bitrate.
pub fn recompute_quality(stats: &mut SessionStats, audio: &mut AudioConfig, adaptive: bool)
    ensures
        *final(stats) == stats_recomputed(*old(stats)),
        final(audio)@ == audio_recomputed(*old(stats), adaptive, old(audio)@),
{
    let latency = stats.network_latency;
    apply_latency(stats, audio, adaptive, latency);
    if adaptive && stats.audio_quality == SessionAudioQuality::High {
        audio.network_bitrate = HIGH_BITRATE;
    }
}

} // verus!
