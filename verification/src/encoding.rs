//! The encoder settings handed to ffmpeg for each codec, quality and effort,
//! in software and on the two GPU encoder families.

use vstd::prelude::*;
use crate::text::{owned, views};

verus! {

/// The output codec.
#[derive(Clone, Copy, Debug, PartialEq, Eq, Structural)]
pub enum Codec {
    X264,
    Hevc,
    Av1,
}

/// The output quality.
#[derive(Clone, Copy, Debug, PartialEq, Eq, Structural)]
pub enum Quality {
    Low,
    Medium,
    High,
    VeryHigh,
}

/// The encoding effort (higher = slower but better compression).
#[derive(Clone, Copy, Debug, PartialEq, Eq, Structural)]
pub enum Effort {
    Low,
    Medium,
    High,
}

/// The GPU encoder family available on the machine: VideoToolbox on Apple
/// silicon macOS, NVIDIA NVENC elsewhere.
#[derive(Clone, Copy, Debug, PartialEq, Eq, Structural)]
pub enum GpuBackend {
    VideoToolbox,
    Nvenc,
}

/// The encoder arguments for ffmpeg: `-c:v {codec}`, the preset arguments,
/// then `{quality_flag} {quality_value}`.
pub struct EncodingArgs {
    pub codec: String,
    pub quality_flag: &'static str,
    pub quality_value: u32,
    pub preset_args: Vec<String>,
}

/// The content of a set of encoder arguments.
pub struct EncodingPlan {
    pub codec: Seq<char>,
    pub quality_flag: Seq<char>,
    pub quality_value: u32,
    pub preset_args: Seq<Seq<char>>,
}

impl EncodingArgs {
    pub open spec fn plan(&self) -> EncodingPlan {
        EncodingPlan {
            codec: self.codec@,
            quality_flag: self.quality_flag@,
            quality_value: self.quality_value,
            preset_args: views(self.preset_args@),
        }
    }
}

/// The rank of a quality setting, from `Low` (0) to `VeryHigh` (3).
pub open spec fn quality_rank(q: Quality) -> nat {
    match q {
        Quality::Low => 0,
        Quality::Medium => 1,
        Quality::High => 2,
        Quality::VeryHigh => 3,
    }
}

pub open spec fn software_codec_name(c: Codec) -> Seq<char> {
    match c {
        Codec::X264 => "libx264"@,
        Codec::Hevc => "libx265"@,
        Codec::Av1 => "libsvtav1"@,
    }
}

/// The CRF value of the software encoders.
pub open spec fn software_crf(c: Codec, q: Quality) -> u32 {
    match c {
        Codec::X264 => match q {
            Quality::Low => 28,
            Quality::Medium => 23,
            Quality::High => 18,
            Quality::VeryHigh => 14,
        },
        Codec::Hevc => match q {
            Quality::Low => 32,
            Quality::Medium => 28,
            Quality::High => 23,
            Quality::VeryHigh => 18,
        },
        Codec::Av1 => match q {
            Quality::Low => 38,
            Quality::Medium => 32,
            Quality::High => 26,
            Quality::VeryHigh => 20,
        },
    }
}

pub open spec fn software_preset(c: Codec, e: Effort) -> Seq<char> {
    match c {
        Codec::Av1 => match e {
            Effort::Low => "10"@,
            Effort::Medium => "6"@,
            Effort::High => "2"@,
        },
        _ => match e {
            Effort::Low => "ultrafast"@,
            Effort::Medium => "medium"@,
            Effort::High => "veryslow"@,
        },
    }
}

pub open spec fn software_plan(c: Codec, q: Quality, e: Effort) -> EncodingPlan {
    EncodingPlan {
        codec: software_codec_name(c),
        quality_flag: "-crf"@,
        quality_value: software_crf(c, q),
        preset_args: seq!["-preset"@, software_preset(c, e)],
    }
}

pub open spec fn nvenc_codec_name(c: Codec) -> Seq<char> {
    match c {
        Codec::X264 => "h264_nvenc"@,
        Codec::Hevc => "hevc_nvenc"@,
        Codec::Av1 => "av1_nvenc"@,
    }
}

/// The constant-quality value of the NVENC encoders.
pub open spec fn nvenc_cq(c: Codec, q: Quality) -> u32 {
    match c {
        Codec::X264 => match q {
            Quality::Low => 32,
            Quality::Medium => 26,
            Quality::High => 20,
            Quality::VeryHigh => 16,
        },
        Codec::Hevc => match q {
            Quality::Low => 34,
            Quality::Medium => 28,
            Quality::High => 22,
            Quality::VeryHigh => 18,
        },
        Codec::Av1 => match q {
            Quality::Low => 38,
            Quality::Medium => 32,
            Quality::High => 26,
            Quality::VeryHigh => 20,
        },
    }
}

pub open spec fn nvenc_preset(e: Effort) -> Seq<char> {
    match e {
        Effort::Low => "p1"@,
        Effort::Medium => "p4"@,
        Effort::High => "p7"@,
    }
}

pub open spec fn nvenc_plan(c: Codec, q: Quality, e: Effort) -> EncodingPlan {
    EncodingPlan {
        codec: nvenc_codec_name(c),
        quality_flag: "-cq"@,
        quality_value: nvenc_cq(c, q),
        preset_args: seq!["-preset"@, nvenc_preset(e), "-rc"@, "vbr"@],
    }
}

/// The `-q:v` value of the VideoToolbox encoders (the same for H.264 and HEVC).
pub open spec fn videotoolbox_q(q: Quality) -> u32 {
    match q {
        Quality::Low => 65,
        Quality::Medium => 55,
        Quality::High => 42,
        Quality::VeryHigh => 30,
    }
}

/// VideoToolbox cannot encode AV1; that codec falls back to the software
/// encoder at medium effort.
pub open spec fn videotoolbox_plan(c: Codec, q: Quality) -> EncodingPlan {
    match c {
        Codec::Av1 => software_plan(c, q, Effort::Medium),
        _ => EncodingPlan {
            codec: if c == Codec::X264 {
                "h264_videotoolbox"@
            } else {
                "hevc_videotoolbox"@
            },
            quality_flag: "-q:v"@,
            quality_value: videotoolbox_q(q),
            preset_args: seq!["-allow_sw"@, "1"@, "-realtime"@, "0"@],
        },
    }
}

/// The encoder settings: software unless `gpu`, otherwise the encoder of the
/// machine's GPU family.
pub open spec fn encoding_plan(
    c: Codec,
    q: Quality,
    e: Effort,
    gpu: bool,
    backend: GpuBackend,
) -> EncodingPlan {
    if gpu {
        match backend {
            GpuBackend::VideoToolbox => videotoolbox_plan(c, q),
            GpuBackend::Nvenc => nvenc_plan(c, q, e),
        }
    } else {
        software_plan(c, q, e)
    }
}

fn strings(parts: &[&str]) -> (r: Vec<String>)
    ensures
        r@.len() == parts@.len(),
        forall|i: int| 0 <= i < parts@.len() ==> #[trigger] r@[i]@ == parts@[i]@,
{
    let mut r: Vec<String> = Vec::new();
    let mut i: usize = 0;
    while i < parts.len()
        invariant
            i <= parts@.len(),
            r@.len() == i,
            forall|k: int| 0 <= k < i ==> #[trigger] r@[k]@ == parts@[k]@,
        decreases parts@.len() - i,
    {
        r.push(owned(parts[i]));
        i += 1;
    }
    r
}

impl EncodingArgs {
    /// The encoder settings for a codec, quality and effort; on the GPU of
    /// family `backend` when `gpu` is set.
    pub fn new(codec: &Codec, quality: &Quality, effort: &Effort, gpu: bool, backend: GpuBackend) -> (r: Self)
        ensures
            r.plan() == encoding_plan(*codec, *quality, *effort, gpu, backend),
    {
        if gpu {
            match backend {
                GpuBackend::VideoToolbox => Self::videotoolbox(codec, quality),
                GpuBackend::Nvenc => Self::nvenc(codec, quality, effort),
            }
        } else {
            Self::software(codec, quality, effort)
        }
    }

    /// The software encoder settings (x264, x265, SVT-AV1).
    pub fn software(codec: &Codec, quality: &Quality, effort: &Effort) -> (r: Self)
        ensures
            r.plan() == software_plan(*codec, *quality, *effort),
    {
        let (codec_name, crf): (&str, u32) = match codec {
            Codec::X264 => (
                "libx264",
                match quality {
                    Quality::Low => 28,
                    Quality::Medium => 23,
                    Quality::High => 18,
                    Quality::VeryHigh => 14,
                },
            ),
            Codec::Hevc => (
                "libx265",
                match quality {
                    Quality::Low => 32,
                    Quality::Medium => 28,
                    Quality::High => 23,
                    Quality::VeryHigh => 18,
                },
            ),
            Codec::Av1 => (
                "libsvtav1",
                match quality {
                    Quality::Low => 38,
                    Quality::Medium => 32,
                    Quality::High => 26,
                    Quality::VeryHigh => 20,
                },
            ),
        };
        let preset: &str = match codec {
            Codec::X264 | Codec::Hevc => match effort {
                Effort::Low => "ultrafast",
                Effort::Medium => "medium",
                Effort::High => "veryslow",
            },
            Codec::Av1 => match effort {
                Effort::Low => "10",
                Effort::Medium => "6",
                Effort::High => "2",
            },
        };
        let preset_args = strings(&["-preset", preset]);
        let r = EncodingArgs {
            codec: owned(codec_name),
            quality_flag: "-crf",
            quality_value: crf,
            preset_args,
        };
        assert(r.plan().preset_args =~= software_plan(*codec, *quality, *effort).preset_args);
        r
    }

    /// The NVIDIA NVENC settings, in variable-bitrate constant-quality mode.
    pub fn nvenc(codec: &Codec, quality: &Quality, effort: &Effort) -> (r: Self)
        ensures
            r.plan() == nvenc_plan(*codec, *quality, *effort),
    {
        let (codec_name, cq): (&str, u32) = match codec {
            Codec::X264 => (
                "h264_nvenc",
                match quality {
                    Quality::Low => 32,
                    Quality::Medium => 26,
                    Quality::High => 20,
                    Quality::VeryHigh => 16,
                },
            ),
            Codec::Hevc => (
                "hevc_nvenc",
                match quality {
                    Quality::Low => 34,
                    Quality::Medium => 28,
                    Quality::High => 22,
                    Quality::VeryHigh => 18,
                },
            ),
            Codec::Av1 => (
                "av1_nvenc",
                match quality {
                    Quality::Low => 38,
                    Quality::Medium => 32,
                    Quality::High => 26,
                    Quality::VeryHigh => 20,
                },
            ),
        };
        let preset: &str = match effort {
            Effort::Low => "p1",
            Effort::Medium => "p4",
            Effort::High => "p7",
        };
        let preset_args = strings(&["-preset", preset, "-rc", "vbr"]);
        let r = EncodingArgs {
            codec: owned(codec_name),
            quality_flag: "-cq",
            quality_value: cq,
            preset_args,
        };
        assert(r.plan().preset_args =~= nvenc_plan(*codec, *quality, *effort).preset_args);
        r
    }

    /// The Apple VideoToolbox settings; AV1 falls back to software at medium effort.
    pub fn videotoolbox(codec: &Codec, quality: &Quality) -> (r: Self)
        ensures
            r.plan() == videotoolbox_plan(*codec, *quality),
    {
        let (codec_name, q): (&str, u32) = match codec {
            Codec::X264 => (
                "h264_videotoolbox",
                match quality {
                    Quality::Low => 65,
                    Quality::Medium => 55,
                    Quality::High => 42,
                    Quality::VeryHigh => 30,
                },
            ),
            Codec::Hevc => (
                "hevc_videotoolbox",
                match quality {
                    Quality::Low => 65,
                    Quality::Medium => 55,
                    Quality::High => 42,
                    Quality::VeryHigh => 30,
                },
            ),
            Codec::Av1 => {
                // VideoToolbox doesn't support AV1 encoding; fall back to software
                return Self::software(codec, quality, &Effort::Medium);
            },
        };
        let preset_args = strings(&["-allow_sw", "1", "-realtime", "0"]);
        let r = EncodingArgs { codec: owned(codec_name), quality_flag: "-q:v", quality_value: q, preset_args };
        assert(r.plan().preset_args =~= videotoolbox_plan(*codec, *quality).preset_args);
        r
    }
}

impl Codec {
    /// The name shown when choosing a codec.
    pub fn label(&self) -> (r: String)
        ensures
            r@ == match *self {
                Codec::X264 => "H.264 (x264)"@,
                Codec::Hevc => "HEVC (x265)"@,
                Codec::Av1 => "AV1 (SVT-AV1)"@,
            },
    {
        match self {
            Codec::X264 => owned("H.264 (x264)"),
            Codec::Hevc => owned("HEVC (x265)"),
            Codec::Av1 => owned("AV1 (SVT-AV1)"),
        }
    }
}

impl Quality {
    /// The name shown when choosing a quality.
    pub fn label(&self) -> (r: String)
        ensures
            r@ == match *self {
                Quality::Low => "Low"@,
                Quality::Medium => "Medium"@,
                Quality::High => "High"@,
                Quality::VeryHigh => "Very High"@,
            },
    {
        match self {
            Quality::Low => owned("Low"),
            Quality::Medium => owned("Medium"),
            Quality::High => owned("High"),
            Quality::VeryHigh => owned("Very High"),
        }
    }
}

impl Effort {
    /// The name shown when choosing an effort.
    pub fn label(&self) -> (r: String)
        ensures
            r@ == match *self {
                Effort::Low => "Low"@,
                Effort::Medium => "Medium"@,
                Effort::High => "High"@,
            },
    {
        match self {
            Effort::Low => owned("Low"),
            Effort::Medium => owned("Medium"),
            Effort::High => owned("High"),
        }
    }
}

/// A higher quality setting always gives a strictly lower quality value
/// (CRF, CQ or `-q:v`), for every codec, effort and encoder.
pub proof fn law_higher_quality_lower_value(
    c: Codec,
    e: Effort,
    gpu: bool,
    backend: GpuBackend,
    q1: Quality,
    q2: Quality,
)
    requires
        quality_rank(q1) < quality_rank(q2),
    ensures
        encoding_plan(c, q2, e, gpu, backend).quality_value < encoding_plan(
            c,
            q1,
            e,
            gpu,
            backend,
        ).quality_value,
{
}

/// The effort changes the preset only: the encoder, the quality flag and the
/// quality value do not depend on it.
pub proof fn law_effort_changes_preset_only(
    c: Codec,
    q: Quality,
    gpu: bool,
    backend: GpuBackend,
    e1: Effort,
    e2: Effort,
)
    ensures
        encoding_plan(c, q, e1, gpu, backend).codec == encoding_plan(c, q, e2, gpu, backend).codec,
        encoding_plan(c, q, e1, gpu, backend).quality_flag == encoding_plan(
            c,
            q,
            e2,
            gpu,
            backend,
        ).quality_flag,
        encoding_plan(c, q, e1, gpu, backend).quality_value == encoding_plan(
            c,
            q,
            e2,
            gpu,
            backend,
        ).quality_value,
{
}

/// Without `gpu` the GPU family plays no part: the settings are the software ones.
pub proof fn law_software_without_gpu(c: Codec, q: Quality, e: Effort, backend: GpuBackend)
    ensures
        encoding_plan(c, q, e, false, backend) == software_plan(c, q, e),
{
}

/// AV1 on VideoToolbox is encoded in software at medium effort, whatever effort was asked for.
pub proof fn law_videotoolbox_av1_falls_back(q: Quality, e: Effort)
    ensures
        videotoolbox_plan(Codec::Av1, q) == software_plan(Codec::Av1, q, Effort::Medium),
        encoding_plan(Codec::Av1, q, e, true, GpuBackend::VideoToolbox) == software_plan(
            Codec::Av1,
            q,
            Effort::Medium,
        ),
{
}

/// The encoder named by the settings encodes the codec asked for, on the
/// encoder family chosen: H.264 goes to an H.264 encoder, HEVC to an HEVC
/// encoder, AV1 to an AV1 encoder; without `gpu` the encoder is a software
/// one, and on NVENC it is an NVENC one.
pub proof fn law_encoder_encodes_the_codec(c: Codec, q: Quality, e: Effort, gpu: bool, backend: GpuBackend)
    ensures
        c == Codec::X264 ==> encoding_plan(c, q, e, gpu, backend).codec == "libx264"@
            || encoding_plan(c, q, e, gpu, backend).codec == "h264_nvenc"@ || encoding_plan(
            c,
            q,
            e,
            gpu,
            backend,
        ).codec == "h264_videotoolbox"@,
        c == Codec::Hevc ==> encoding_plan(c, q, e, gpu, backend).codec == "libx265"@
            || encoding_plan(c, q, e, gpu, backend).codec == "hevc_nvenc"@ || encoding_plan(
            c,
            q,
            e,
            gpu,
            backend,
        ).codec == "hevc_videotoolbox"@,
        c == Codec::Av1 ==> encoding_plan(c, q, e, gpu, backend).codec == "libsvtav1"@
            || encoding_plan(c, q, e, gpu, backend).codec == "av1_nvenc"@,
        !gpu ==> encoding_plan(c, q, e, gpu, backend).codec == "libx264"@ || encoding_plan(
            c,
            q,
            e,
            gpu,
            backend,
        ).codec == "libx265"@ || encoding_plan(c, q, e, gpu, backend).codec == "libsvtav1"@,
        gpu && backend == GpuBackend::Nvenc ==> encoding_plan(c, q, e, gpu, backend).codec
            == "h264_nvenc"@ || encoding_plan(c, q, e, gpu, backend).codec == "hevc_nvenc"@
            || encoding_plan(c, q, e, gpu, backend).codec == "av1_nvenc"@,
{
}

proof fn lemma_encoder_names_differ()
    ensures
        "libx264"@ != "libx265"@,
        "libx264"@ != "libsvtav1"@,
        "libx265"@ != "libsvtav1"@,
        "h264_nvenc"@ != "hevc_nvenc"@,
        "h264_nvenc"@ != "av1_nvenc"@,
        "hevc_nvenc"@ != "av1_nvenc"@,
        "h264_videotoolbox"@ != "hevc_videotoolbox"@,
        "h264_videotoolbox"@ != "libsvtav1"@,
        "hevc_videotoolbox"@ != "libsvtav1"@,
{
    reveal_strlit("libx264");
    reveal_strlit("libx265");
    reveal_strlit("libsvtav1");
    reveal_strlit("h264_nvenc");
    reveal_strlit("hevc_nvenc");
    reveal_strlit("av1_nvenc");
    reveal_strlit("h264_videotoolbox");
    reveal_strlit("hevc_videotoolbox");
    assert("libx264"@[6] != "libx265"@[6]);
    assert("h264_nvenc"@[1] != "hevc_nvenc"@[1]);
    assert("h264_videotoolbox"@[1] != "hevc_videotoolbox"@[1]);
}

/// Different codecs never share an encoder: on the same encoder family,
/// whatever the qualities and efforts, two different codecs are encoded by
/// encoders of different names.
pub proof fn law_distinct_codecs_distinct_encoders(
    c1: Codec,
    c2: Codec,
    q1: Quality,
    q2: Quality,
    e1: Effort,
    e2: Effort,
    gpu: bool,
    backend: GpuBackend,
)
    requires
        c1 != c2,
    ensures
        encoding_plan(c1, q1, e1, gpu, backend).codec != encoding_plan(c2, q2, e2, gpu, backend).codec,
{
    lemma_encoder_names_differ();
}

} // verus!
