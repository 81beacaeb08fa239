//! Device descriptions of the nodes that a PipeWire registry reports.
//!
//! The registry walk happens outside; from the properties of one node this
//! module decides whether it is a capture or playback endpoint, what it is
//! called and which format it prefers.

use vstd::prelude::*;
use vstd::string::{StrSliceExecFns, StringExecFns};

use crate::audio::AudioFormat;
use crate::device::{AudioDeviceId, AudioDeviceInfo, AudioDirection};
use crate::encoded_audio::{Endianness, PcmFormat};

verus! {

/// The format assumed for a node that reports none: 48 kHz stereo 32-bit float.
pub open spec fn spec_default_audio_format() -> AudioFormat {
    AudioFormat { sample_rate: 48_000, channels: 2, sample_format: PcmFormat::F32(Endianness::Little) }
}

/// The format assumed for a node that reports none.
pub fn default_audio_format() -> (f: AudioFormat)
    ensures
        f == spec_default_audio_format(),
{
    AudioFormat { sample_rate: 48_000, channels: 2, sample_format: PcmFormat::F32(Endianness::Little) }
}

/// A node's default format from the parts its format parameter announced;
/// `None` unless all three are known.
pub fn format_from_parts(
    sample_rate: Option<u32>,
    channels: Option<u16>,
    sample_format: Option<PcmFormat>,
) -> (f: Option<AudioFormat>)
    ensures
        f == (match (sample_rate, channels, sample_format) {
            (Some(r), Some(c), Some(s)) => Some(AudioFormat { sample_rate: r, channels: c, sample_format: s }),
            _ => None,
        }),
{
    match (sample_rate, channels, sample_format) {
        (Some(r), Some(c), Some(s)) => Some(AudioFormat { sample_rate: r, channels: c, sample_format: s }),
        _ => None,
    }
}

/// The identifiers that SPA gives the raw audio sample formats this library
/// reads from a node's format parameter (`SPA_AUDIO_FORMAT_*`).
#[derive(Debug, Clone, Copy, PartialEq, Eq, Structural)]
pub struct SpaFormatIds {
    /// 32-bit float, little-endian.
    pub f32_le: u32,
    /// Signed 32-bit, little-endian.
    pub s32_le: u32,
    /// Signed 16-bit, little-endian.
    pub s16_le: u32,
    /// Unsigned 16-bit, little-endian.
    pub u16_le: u32,
}

/// The PCM format of the SPA audio format `id`, checked against the
/// identifiers in `ids` in this order; `None` for other formats.
pub open spec fn spec_pcm_format_from_spa(id: u32, ids: SpaFormatIds) -> Option<PcmFormat> {
    if id == ids.f32_le {
        Some(PcmFormat::F32(Endianness::Little))
    } else if id == ids.s32_le {
        Some(PcmFormat::I32(Endianness::Little))
    } else if id == ids.s16_le {
        Some(PcmFormat::I16(Endianness::Little))
    } else if id == ids.u16_le {
        Some(PcmFormat::U16(Endianness::Little))
    } else {
        None
    }
}

/// The PCM format of the SPA audio format `id`: 32-bit float, signed 32- or
/// 16-bit, or unsigned 16-bit, all little-endian; `None` for other formats.
pub fn pcm_format_from_spa(id: u32, ids: &SpaFormatIds) -> (f: Option<PcmFormat>)
    ensures
        f == spec_pcm_format_from_spa(id, *ids),
{
    if id == ids.f32_le {
        Some(PcmFormat::F32(Endianness::Little))
    } else if id == ids.s32_le {
        Some(PcmFormat::I32(Endianness::Little))
    } else if id == ids.s16_le {
        Some(PcmFormat::I16(Endianness::Little))
    } else if id == ids.u16_le {
        Some(PcmFormat::U16(Endianness::Little))
    } else {
        None
    }
}

/// The direction of a node of the media class `class`: sources and input
/// streams capture, sinks and output streams play; other nodes are no endpoints.
pub open spec fn spec_media_direction(class: Seq<char>) -> Option<AudioDirection> {
    if class == "Audio/Source"@ || class == "Stream/Input/Audio"@ {
        Some(AudioDirection::Input)
    } else if class == "Audio/Sink"@ || class == "Stream/Output/Audio"@ {
        Some(AudioDirection::Output)
    } else {
        None
    }
}

/// The two strings hold the same characters.
fn str_eq(a: &str, b: &str) -> (r: bool)
    ensures
        r == (a@ == b@),
{
    let n = a.unicode_len();
    if n != b.unicode_len() {
        return false;
    }
    let mut i: usize = 0;
    while i < n
        invariant
            n == a@.len(),
            n == b@.len(),
            i <= n,
            forall|k: int| 0 <= k < i ==> a@[k] == b@[k],
        decreases n - i,
    {
        if a.get_char(i) != b.get_char(i) {
            return false;
        }
        i = i + 1;
    }
    assert(a@ =~= b@);
    true
}

/// The direction of a node of media class `class`, or `None` for nodes that are no endpoints.
pub fn media_direction(class: &str) -> (d: Option<AudioDirection>)
    ensures
        d == spec_media_direction(class@),
{
    if str_eq(class, "Audio/Source") || str_eq(class, "Stream/Input/Audio") {
        Some(AudioDirection::Input)
    } else if str_eq(class, "Audio/Sink") || str_eq(class, "Stream/Output/Audio") {
        Some(AudioDirection::Output)
    } else {
        None
    }
}

/// The character of the decimal digit `d`.
pub open spec fn digit_char(d: nat) -> char {
    (d + 48) as char
}

/// The decimal notation of `n`, without leading zeros.
pub open spec fn decimal(n: nat) -> Seq<char>
    decreases n,
{
    if n < 10 {
        seq![digit_char(n)]
    } else {
        decimal(n / 10) + seq![digit_char(n % 10)]
    }
}

fn digit_str(d: u32) -> (s: &'static str)
    requires
        d < 10,
    ensures
        s@ == seq![digit_char(d as nat)],
{
    match d {
        0 => {
            proof { reveal_strlit("0"); }
            "0"
        },
        1 => {
            proof { reveal_strlit("1"); }
            "1"
        },
        2 => {
            proof { reveal_strlit("2"); }
            "2"
        },
        3 => {
            proof { reveal_strlit("3"); }
            "3"
        },
        4 => {
            proof { reveal_strlit("4"); }
            "4"
        },
        5 => {
            proof { reveal_strlit("5"); }
            "5"
        },
        6 => {
            proof { reveal_strlit("6"); }
            "6"
        },
        7 => {
            proof { reveal_strlit("7"); }
            "7"
        },
        8 => {
            proof { reveal_strlit("8"); }
            "8"
        },
        _ => {
            proof { reveal_strlit("9"); }
            "9"
        },
    }
}

/// The decimal notation of `n`.
pub fn decimal_string(n: u32) -> (s: String)
    ensures
        s@ == decimal(n as nat),
    decreases n,
{
    if n < 10 {
        String::from_str(digit_str(n))
    } else {
        let mut s = decimal_string(n / 10);
        s.append(digit_str(n % 10));
        s
    }
}

/// The view of an optional string.
pub open spec fn opt_view(s: Option<&str>) -> Option<Seq<char>> {
    match s {
        Some(v) => Some(v@),
        None => None,
    }
}

/// The name a node is shown under: its description, else its nick, else its
/// name, else "Node" and its id.
pub open spec fn spec_node_name(
    id: u32,
    description: Option<Seq<char>>,
    nick: Option<Seq<char>>,
    name: Option<Seq<char>>,
) -> Seq<char> {
    match (description, nick, name) {
        (Some(d), _, _) => d,
        (None, Some(n), _) => n,
        (None, None, Some(n)) => n,
        (None, None, None) => "Node "@ + decimal(id as nat),
    }
}

/// The name a node is shown under.
pub fn node_name(id: u32, description: Option<&str>, nick: Option<&str>, name: Option<&str>) -> (s: String)
    ensures
        s@ == spec_node_name(id, opt_view(description), opt_view(nick), opt_view(name)),
{
    match (description, nick, name) {
        (Some(d), _, _) => String::from_str(d),
        (None, Some(n), _) => String::from_str(n),
        (None, None, Some(n)) => String::from_str(n),
        (None, None, None) => String::from_str("Node ").concat(decimal_string(id).as_str()),
    }
}

/// The device description of node `id`, or `None` when its media class
/// (absent, or neither a source nor a sink) makes it no endpoint.
///
/// A node without a `device.id` property is a virtual device; a node that
/// announced no default format gets the assumed one.
pub fn device_from_node(
    id: u32,
    media_class: Option<&str>,
    has_device_id: bool,
    description: Option<&str>,
    nick: Option<&str>,
    name: Option<&str>,
    default_format: Option<AudioFormat>,
) -> (info: Option<AudioDeviceInfo>)
    ensures
        info is Some <==> (media_class matches Some(c) && spec_media_direction(c@) is Some),
        info matches Some(i) ==> {
            &&& i.id == AudioDeviceId::Numeric(id as u64)
            &&& i.name@ == spec_node_name(id, opt_view(description), opt_view(nick), opt_view(name))
            &&& Some(i.direction) == spec_media_direction(media_class->Some_0@)
            &&& i.formats@ == Seq::<AudioFormat>::empty()
            &&& i.default_format == (match default_format {
                Some(f) => f,
                None => spec_default_audio_format(),
            })
            &&& !i.default
            &&& i.virtual_device == !has_device_id
        },
{
    let class = match media_class {
        Some(c) => c,
        None => return None,
    };
    let direction = match media_direction(class) {
        Some(d) => d,
        None => return None,
    };
    let default_format = match default_format {
        Some(f) => f,
        None => default_audio_format(),
    };
    Some(AudioDeviceInfo {
        id: AudioDeviceId::Numeric(id as u64),
        name: node_name(id, description, nick, name),
        direction,
        formats: Vec::new(),
        default_format,
        default: false,
        virtual_device: !has_device_id,
    })
}

} // verus!
