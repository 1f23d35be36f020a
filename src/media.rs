use vstd::prelude::*;
use crate::text::str_eq;

verus! {

/// What the probe of the input found, as far as the parameters care.
pub struct MediaInfo {
    /// Number of streams the container declares.
    pub nb_streams: u32,
    /// The codec type of each stream (`audio`, `video`, ...), when known.
    pub codec_types: Vec<Option<String>>,
    /// The input has a known duration above zero.
    pub positive_duration: bool,
}

pub open spec fn is_type(o: Option<String>, t: Seq<char>) -> bool {
    match o {
        Some(s) => s@ == t,
        None => false,
    }
}

/// Some stream of the input has codec type `t`.
pub open spec fn has_stream_type(info: MediaInfo, t: Seq<char>) -> bool {
    info.nb_streams != 0 && exists|i: int| 0 <= i < info.codec_types.len() && is_type(#[trigger] info.codec_types@[i], t)
}

impl MediaInfo {
    pub fn has_stream_type(&self, t: &str) -> (r: bool)
        ensures
            r == has_stream_type(*self, t@),
    {
        if self.nb_streams == 0 {
            return false;
        }
        let mut i: usize = 0;
        while i < self.codec_types.len()
            invariant
                i <= self.codec_types.len(),
                self.nb_streams != 0,
                forall|j: int| 0 <= j < i ==> !is_type(#[trigger] self.codec_types@[j], t@),
            decreases self.codec_types.len() - i,
        {
            if let Some(s) = &self.codec_types[i] {
                if str_eq(s.as_str(), t) {
                    assert(is_type(self.codec_types@[i as int], t@));
                    return true;
                }
            }
            i += 1;
        }
        false
    }

    pub fn has_audio(&self) -> (r: bool)
        ensures
            r == has_stream_type(*self, "audio"@),
    {
        self.has_stream_type("audio")
    }

    pub fn has_video(&self) -> (r: bool)
        ensures
            r == has_stream_type(*self, "video"@),
    {
        self.has_stream_type("video")
    }

    pub fn has_non_empty_duration(&self) -> (r: bool)
        ensures
            r == self.positive_duration,
    {
        self.positive_duration
    }
}

} // verus!
