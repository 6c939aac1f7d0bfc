//! What the front ends know of an audio file.
use vstd::prelude::*;

verus! {

/// An audio file: its path, its file name, its duration and an SVG image
/// of its waveform. The duration in seconds is held as the bit pattern of
/// the `f64` that measures it; this library only stores and copies it.
#[derive(Debug)]
pub struct AudioInfo {
    pub path: String,
    pub name: String,
    pub duration_sec_bits: u64,
    pub image: String,
}

/// The contents of an [`AudioInfo`].
pub struct AudioInfoView {
    pub path: Seq<char>,
    pub name: Seq<char>,
    pub duration_sec_bits: u64,
    pub image: Seq<char>,
}

impl View for AudioInfo {
    type V = AudioInfoView;

    open spec fn view(&self) -> AudioInfoView {
        AudioInfoView { path: self.path@, name: self.name@, duration_sec_bits: self.duration_sec_bits, image: self.image@ }
    }
}

/// The view of an empty record.
pub open spec fn empty_audio_info() -> AudioInfoView {
    AudioInfoView { path: Seq::empty(), name: Seq::empty(), duration_sec_bits: 0, image: Seq::empty() }
}

/// The views of a sequence of records.
pub open spec fn audio_infos_view(s: Seq<AudioInfo>) -> Seq<AudioInfoView> {
    s.map_values(|a: AudioInfo| a@)
}

impl AudioInfo {
    /// An empty record: empty path, name and image, a zero duration.
    pub fn default() -> (r: Self)
        ensures
            r@ == empty_audio_info(),
    {
        AudioInfo { path: String::new(), name: String::new(), duration_sec_bits: 0, image: String::new() }
    }
}

impl Clone for AudioInfo {
    fn clone(&self) -> (r: Self)
        ensures
            r == *self,
    {
        AudioInfo {
            path: self.path.clone(),
            name: self.name.clone(),
            duration_sec_bits: self.duration_sec_bits,
            image: self.image.clone(),
        }
    }
}

} // verus!
