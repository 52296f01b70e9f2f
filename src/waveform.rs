use vstd::prelude::*;

verus! {

/// Longest waveform a cursor can play, in frames.
pub const MAX_FRAMES: usize = 0x7fff_ffff;

/// Sub-semitone detune bound, Q8.8: one semitone either way.
pub const FINETUNE_MAX: i16 = 256;

/// How playback behaves at the loop window.
#[derive(Clone, Copy, Debug, PartialEq, Eq, Structural)]
pub enum LoopMode {
    No,
    Forward,
    PingPong,
}

/// An immutable waveform: Q1.15 mono frames and the metadata that playback
/// reads.
#[derive(Clone, Debug)]
pub struct Waveform {
    /// Amplitudes, Q1.15.
    pub data: Vec<i16>,
    pub loop_start: u32,
    pub loop_length: u32,
    pub loop_mode: LoopMode,
    /// Bit depth of the source data.
    pub bits: u8,
    /// Base panning, Q1.15 in `[0, 1]`.
    pub panning: u16,
    /// Base volume, Q1.15 in `[0, 1]`.
    pub volume: u16,
    /// Semitones from C-4.
    pub relative_note: i8,
    /// Sub-semitone detune, Q8.8.
    pub finetune: i16,
}

impl Waveform {
    pub open spec fn len(&self) -> int {
        self.data@.len() as int
    }

    pub open spec fn loop_end(&self) -> int {
        self.loop_start + self.loop_length
    }

    /// Amplitude at a frame index.
    pub open spec fn at(&self, i: int) -> int {
        self.data@[i] as int
    }

    /// The length fits a cursor, a looping waveform has a non-empty loop
    /// window inside the data, and the detune is at most a semitone.
    pub open spec fn wf(&self) -> bool {
        &&& self.data@.len() <= MAX_FRAMES
        &&& self.loop_mode != LoopMode::No ==> {
            &&& self.loop_length > 0
            &&& self.loop_end() <= self.len()
        }
        &&& -FINETUNE_MAX <= self.finetune <= FINETUNE_MAX
    }

    /// Builds a waveform, or none when the fields break `wf`.
    pub fn new(
        data: Vec<i16>,
        loop_mode: LoopMode,
        loop_start: u32,
        loop_length: u32,
        bits: u8,
        panning: u16,
        volume: u16,
        relative_note: i8,
        finetune: i16,
    ) -> (r: Option<Waveform>)
        ensures
            r matches Some(w) ==> w.wf() && w.data@ == data@ && w.loop_mode == loop_mode
                && w.loop_start == loop_start && w.loop_length == loop_length && w.bits == bits
                && w.panning == panning && w.volume == volume && w.relative_note == relative_note
                && w.finetune == finetune,
            r is Some <==> {
                &&& data@.len() <= MAX_FRAMES
                &&& loop_mode != LoopMode::No ==> loop_length > 0 && loop_start + loop_length
                    <= data@.len()
                &&& -FINETUNE_MAX <= finetune <= FINETUNE_MAX
            },
    {
        if data.len() > MAX_FRAMES || finetune < -FINETUNE_MAX || finetune > FINETUNE_MAX {
            return None;
        }
        if loop_mode != LoopMode::No {
            if loop_length == 0 || loop_start as u64 + loop_length as u64 > data.len() as u64 {
                return None;
            }
        }
        Some(
            Waveform {
                data,
                loop_start,
                loop_length,
                loop_mode,
                bits,
                panning,
                volume,
                relative_note,
                finetune,
            },
        )
    }
}

} // verus!
