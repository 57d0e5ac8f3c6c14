//! The audio-probe adapter's data model: the structured output of the
//! external probe process, and its translation into the fields a library
//! record needs. Parsing rejects rather than panics; a rejected probe
//! aborts the import of that one item.

use crate::db::Track;
use crate::text::{
    all_digits, bytes_of, dec_val, duration_ms_of, duration_wf, lower_bytes, lower_vec, parse_duration_ms,
    parse_u64, string_bytes,
};
use vstd::prelude::*;
use vstd::string::StrSliceExecFns;

verus! {

/// One stream as the probe reports it; numeric fields arrive as strings.
pub struct AudioStream {
    pub codec_name: String,
    pub sample_rate: Option<String>,
    pub channels: Option<u8>,
    pub sample_fmt: Option<String>,
}

/// The container-level fields the probe reports.
pub struct AudioFormat {
    pub duration: String,
    pub size: String,
    pub bit_rate: String,
}

/// The probe's structured output: streams plus container data.
pub struct AudioInfo {
    pub streams: Vec<AudioStream>,
    pub format: AudioFormat,
}

/// The numeric fields of a probed file, parsed: sample rate in hertz,
/// duration in whole milliseconds, bit rate in bits per second.
pub struct FormattedAudio {
    pub sample_rate: u64,
    pub duration_ms: u64,
    pub bit_rate: u64,
}

/// A non-empty decimal digit string whose value fits in 64 bits.
pub open spec fn valid_u64(s: Seq<u8>) -> bool {
    s.len() > 0 && all_digits(s) && dec_val(s) <= u64::MAX
}

/// Position `k` holds the first stream that is not the embedded cover image.
pub open spec fn is_first_audio_stream(streams: Seq<AudioStream>, k: int) -> bool {
    &&& 0 <= k < streams.len()
    &&& streams[k].codec_name@ != "mjpeg"@
    &&& forall|j: int| 0 <= j < k ==> (#[trigger] streams[j]).codec_name@ == "mjpeg"@
}

impl AudioInfo {
    /// Some stream is audio rather than the embedded cover image.
    pub open spec fn has_audio_stream(self) -> bool {
        exists|k: int|
            0 <= k < self.streams@.len() && (#[trigger] self.streams@[k]).codec_name@ != "mjpeg"@
    }

    /// The index of the first audio stream.
    pub open spec fn first_audio(self) -> int {
        choose|k: int| is_first_audio_stream(self.streams@, k)
    }

    /// The codec name the record's fields are derived from.
    pub open spec fn codec_of(self) -> Seq<char> {
        self.streams@[self.first_audio()].codec_name@
    }

    /// Find the first stream that is not the cover image.
    pub fn get_non_image_stream(&self) -> (r: Option<usize>)
        ensures
            r is Some <==> self.has_audio_stream(),
            r is Some ==> is_first_audio_stream(self.streams@, r->0 as int),
            r is Some ==> r->0 as int == self.first_audio(),
    {
        let mjpeg = String::from_str("mjpeg");
        let mut i: usize = 0;
        while i < self.streams.len()
            invariant
                i <= self.streams@.len(),
                mjpeg@ == "mjpeg"@,
                forall|j: int| 0 <= j < i ==> (#[trigger] self.streams@[j]).codec_name@ == "mjpeg"@,
            decreases self.streams@.len() - i,
        {
            if !(self.streams[i].codec_name == mjpeg) {
                proof {
                    assert(is_first_audio_stream(self.streams@, i as int));
                    let c = self.first_audio();
                    assert(is_first_audio_stream(self.streams@, c));
                    assert(c == i as int) by {
                        if c < i as int {
                            assert(self.streams@[c].codec_name@ == "mjpeg"@);
                        } else if c > i as int {
                            assert(self.streams@[i as int].codec_name@ == "mjpeg"@);
                        }
                    }
                }
                return Some(i);
            }
            i = i + 1;
        }
        None
    }

    /// The storage extension for the probed codec: `mp3` stays `mp3`,
    /// AAC and Apple Lossless go to `m4a`, everything else to `wav`.
    pub fn get_audio_extension(&self) -> (r: &'static str)
        requires
            self.has_audio_stream(),
        ensures
            r@ == extension_for(self.codec_of()),
    {
        let k = match self.get_non_image_stream() {
            Some(k) => k,
            None => {
                return "wav";
            },
        };
        let mp3 = String::from_str("mp3");
        let alac = String::from_str("alac");
        let aac = String::from_str("aac");
        if self.streams[k].codec_name == mp3 {
            "mp3"
        } else if self.streams[k].codec_name == alac || self.streams[k].codec_name == aac {
            "m4a"
        } else {
            "wav"
        }
    }

    /// The human-readable codec label written into the record.
    pub fn get_audio_codec(&self) -> (r: String)
        requires
            self.has_audio_stream(),
        ensures
            r@ == codec_label(self.codec_of()),
    {
        let k = match self.get_non_image_stream() {
            Some(k) => k,
            None => {
                return String::from_str("WAV audio file");
            },
        };
        let mp3 = String::from_str("mp3");
        let alac = String::from_str("alac");
        let aac = String::from_str("aac");
        if self.streams[k].codec_name == mp3 {
            String::from_str("MPEG audio file")
        } else if self.streams[k].codec_name == aac {
            String::from_str("AAC audio file")
        } else if self.streams[k].codec_name == alac {
            String::from_str("Apple Lossless audio file")
        } else {
            String::from_str("WAV audio file")
        }
    }

    /// Whether the parsed numeric fields exist: an audio stream with a
    /// sample rate, and three well-formed decimal fields.
    pub open spec fn nice_ok(self) -> bool {
        &&& self.has_audio_stream()
        &&& self.streams@[self.first_audio()].sample_rate is Some
        &&& valid_u64(bytes_of(self.streams@[self.first_audio()].sample_rate->0@))
        &&& valid_u64(bytes_of(self.format.bit_rate@))
        &&& duration_wf(bytes_of(self.format.duration@))
    }

    /// The parsed numeric fields, when `nice_ok` holds.
    pub open spec fn nice_spec(self) -> FormattedAudio {
        FormattedAudio {
            sample_rate: dec_val(
                bytes_of(self.streams@[self.first_audio()].sample_rate->0@),
            ) as u64,
            duration_ms: duration_ms_of(bytes_of(self.format.duration@)) as u64,
            bit_rate: dec_val(bytes_of(self.format.bit_rate@)) as u64,
        }
    }

    /// Parse the probe's string fields into numbers. Any malformed field
    /// rejects the whole probe result.
    pub fn get_nice_object(&self) -> (r: Option<FormattedAudio>)
        ensures
            r is Some <==> self.nice_ok(),
            r is Some ==> r->0 == self.nice_spec(),
            r is Some ==> {
                &&& r->0.sample_rate == dec_val(
                    bytes_of(self.streams@[self.first_audio()].sample_rate->0@),
                )
                &&& r->0.bit_rate == dec_val(bytes_of(self.format.bit_rate@))
                &&& r->0.duration_ms == duration_ms_of(bytes_of(self.format.duration@))
            },
    {
        let k = match self.get_non_image_stream() {
            Some(k) => k,
            None => {
                return None;
            },
        };
        let sr_str = match &self.streams[k].sample_rate {
            Some(s) => s,
            None => {
                return None;
            },
        };
        let sample_rate = match parse_u64(&string_bytes(sr_str)) {
            Some(v) => v,
            None => {
                return None;
            },
        };
        let bit_rate = match parse_u64(&string_bytes(&self.format.bit_rate)) {
            Some(v) => v,
            None => {
                return None;
            },
        };
        let duration_ms = match parse_duration_ms(&string_bytes(&self.format.duration)) {
            Some(v) => v,
            None => {
                return None;
            },
        };
        Some(FormattedAudio { sample_rate, duration_ms, bit_rate })
    }

    /// Stamp the codec-derived fields onto a track record, leaving every
    /// other field as it was.
    pub fn modify_xtrack(&self, track: &mut Track)
        requires
            self.has_audio_stream(),
        ensures
            final(track).filetype == filetype_code(self.codec_of()),
            final(track).codec@ == codec_label(self.codec_of()),
            *final(track) == (Track {
                filetype: final(track).filetype,
                codec: final(track).codec,
                ..*old(track)
            }),
    {
        let k = match self.get_non_image_stream() {
            Some(k) => k,
            None => {
                return ;
            },
        };
        let mp3 = String::from_str("mp3");
        let alac = String::from_str("alac");
        let aac = String::from_str("aac");
        let code: u32 = if self.streams[k].codec_name == mp3 {
            0x4D503300
        } else if self.streams[k].codec_name == aac {
            0x4D344100
        } else if self.streams[k].codec_name == alac {
            0x4D344120
        } else {
            0x57415600
        };
        track.filetype = code;
        track.codec = self.get_audio_codec();
    }
}

/// The storage extension for a codec name.
pub open spec fn extension_for(codec: Seq<char>) -> Seq<char> {
    if codec == "mp3"@ {
        "mp3"@
    } else if codec == "alac"@ || codec == "aac"@ {
        "m4a"@
    } else {
        "wav"@
    }
}

/// The codec label for a codec name.
pub open spec fn codec_label(codec: Seq<char>) -> Seq<char> {
    if codec == "mp3"@ {
        "MPEG audio file"@
    } else if codec == "aac"@ {
        "AAC audio file"@
    } else if codec == "alac"@ {
        "Apple Lossless audio file"@
    } else {
        "WAV audio file"@
    }
}

/// The on-device file-type tag for a codec name: the label's four tag bytes
/// packed big-endian (`MP3`, `M4A`, `M4A `, `WAV`; three-byte tags are
/// padded with a zero byte).
pub open spec fn filetype_code(codec: Seq<char>) -> u32 {
    if codec == "mp3"@ {
        0x4D503300
    } else if codec == "aac"@ {
        0x4D344100
    } else if codec == "alac"@ {
        0x4D344120
    } else {
        0x57415600
    }
}

/// The file extensions the importer accepts, compared ignoring ASCII case.
pub open spec fn compatible_ext(e: Seq<char>) -> bool {
    ||| lower_bytes(bytes_of(e)) == bytes_of("mp3"@)
    ||| lower_bytes(bytes_of(e)) == bytes_of("m4a"@)
    ||| lower_bytes(bytes_of(e)) == bytes_of("wav"@)
    ||| lower_bytes(bytes_of(e)) == bytes_of("aiff"@)
    ||| lower_bytes(bytes_of(e)) == bytes_of("aif"@)
}

/// Is the extension one the importer accepts, ignoring ASCII case?
pub fn check_extension_compatibility(ext: &str) -> (r: bool)
    ensures
        r == compatible_ext(ext@),
{
    let eb = ext.as_bytes_vec();
    let lb = lower_vec(&eb);
    let a = "mp3".as_bytes_vec();
    let b = "m4a".as_bytes_vec();
    let c = "wav".as_bytes_vec();
    let d = "aiff".as_bytes_vec();
    let e = "aif".as_bytes_vec();
    bytes_eq(&lb, &a) || bytes_eq(&lb, &b) || bytes_eq(&lb, &c) || bytes_eq(&lb, &d) || bytes_eq(
        &lb,
        &e,
    )
}

/// Compare two byte strings for equality.
pub fn bytes_eq(a: &Vec<u8>, b: &Vec<u8>) -> (r: bool)
    ensures
        r == (a@ == b@),
{
    if a.len() != b.len() {
        proof {
            assert(a@ != b@);
        }
        return false;
    }
    let mut i: usize = 0;
    while i < a.len()
        invariant
            a@.len() == b@.len(),
            i <= a@.len(),
            forall|k: int| 0 <= k < i ==> a@[k] == b@[k],
        decreases a@.len() - i,
    {
        if a[i] != b[i] {
            return false;
        }
        i = i + 1;
    }
    proof {
        assert(a@ =~= b@);
    }
    true
}

} // verus!
