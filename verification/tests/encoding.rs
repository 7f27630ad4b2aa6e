use scrolling_compilation_maker::encoding::{Codec, Effort, EncodingArgs, GpuBackend, Quality};

fn strings(v: &[&str]) -> Vec<String> {
    v.iter().map(|s| s.to_string()).collect()
}

#[test]
fn software_x264() {
    let e = EncodingArgs::new(&Codec::X264, &Quality::Medium, &Effort::Medium, false, GpuBackend::Nvenc);
    assert_eq!(e.codec, "libx264");
    assert_eq!(e.quality_flag, "-crf");
    assert_eq!(e.quality_value, 23);
    assert_eq!(e.preset_args, strings(&["-preset", "medium"]));
}

#[test]
fn software_hevc_and_av1() {
    let e = EncodingArgs::new(&Codec::Hevc, &Quality::VeryHigh, &Effort::High, false, GpuBackend::VideoToolbox);
    assert_eq!(e.codec, "libx265");
    assert_eq!(e.quality_value, 18);
    assert_eq!(e.preset_args, strings(&["-preset", "veryslow"]));
    let e = EncodingArgs::new(&Codec::Av1, &Quality::Low, &Effort::Low, false, GpuBackend::Nvenc);
    assert_eq!(e.codec, "libsvtav1");
    assert_eq!(e.quality_flag, "-crf");
    assert_eq!(e.quality_value, 38);
    assert_eq!(e.preset_args, strings(&["-preset", "10"]));
}

#[test]
fn nvenc_settings() {
    let e = EncodingArgs::new(&Codec::X264, &Quality::High, &Effort::Low, true, GpuBackend::Nvenc);
    assert_eq!(e.codec, "h264_nvenc");
    assert_eq!(e.quality_flag, "-cq");
    assert_eq!(e.quality_value, 20);
    assert_eq!(e.preset_args, strings(&["-preset", "p1", "-rc", "vbr"]));
    let e = EncodingArgs::new(&Codec::Hevc, &Quality::Low, &Effort::High, true, GpuBackend::Nvenc);
    assert_eq!(e.codec, "hevc_nvenc");
    assert_eq!(e.quality_value, 34);
    assert_eq!(e.preset_args, strings(&["-preset", "p7", "-rc", "vbr"]));
}

#[test]
fn videotoolbox_settings() {
    let e = EncodingArgs::new(&Codec::Hevc, &Quality::Medium, &Effort::Low, true, GpuBackend::VideoToolbox);
    assert_eq!(e.codec, "hevc_videotoolbox");
    assert_eq!(e.quality_flag, "-q:v");
    assert_eq!(e.quality_value, 55);
    assert_eq!(e.preset_args, strings(&["-allow_sw", "1", "-realtime", "0"]));
}

#[test]
fn videotoolbox_av1_falls_back_to_software_medium() {
    let e = EncodingArgs::new(&Codec::Av1, &Quality::High, &Effort::High, true, GpuBackend::VideoToolbox);
    assert_eq!(e.codec, "libsvtav1");
    assert_eq!(e.quality_flag, "-crf");
    assert_eq!(e.quality_value, 26);
    assert_eq!(e.preset_args, strings(&["-preset", "6"]));
}

#[test]
fn better_quality_never_raises_value() {
    let qs = [Quality::Low, Quality::Medium, Quality::High, Quality::VeryHigh];
    for codec in [Codec::X264, Codec::Hevc, Codec::Av1] {
        for (gpu, backend) in [(false, GpuBackend::Nvenc), (true, GpuBackend::Nvenc), (true, GpuBackend::VideoToolbox)] {
            let values: Vec<u32> = qs
                .iter()
                .map(|q| EncodingArgs::new(&codec, q, &Effort::Medium, gpu, backend).quality_value)
                .collect();
            assert!(values.windows(2).all(|w| w[1] < w[0]));
        }
    }
}

#[test]
fn labels() {
    assert_eq!(Codec::X264.label(), "H.264 (x264)");
    assert_eq!(Codec::Av1.label(), "AV1 (SVT-AV1)");
    assert_eq!(Quality::VeryHigh.label(), "Very High");
    assert_eq!(Effort::Low.label(), "Low");
}

#[test]
fn videotoolbox_av1_is_software_at_medium_effort() {
    for q in [Quality::Low, Quality::Medium, Quality::High, Quality::VeryHigh] {
        let vt = EncodingArgs::videotoolbox(&Codec::Av1, &q);
        let sw = EncodingArgs::software(&Codec::Av1, &q, &Effort::Medium);
        assert_eq!(vt.codec, sw.codec);
        assert_eq!(vt.quality_flag, sw.quality_flag);
        assert_eq!(vt.quality_value, sw.quality_value);
        assert_eq!(vt.preset_args, sw.preset_args);
    }
    let vt = EncodingArgs::videotoolbox(&Codec::Av1, &Quality::High);
    assert_eq!(vt.codec, "libsvtav1");
    assert_eq!(vt.quality_flag, "-crf");
    assert_eq!(vt.quality_value, 26);
    assert_eq!(vt.preset_args, vec!["-preset".to_string(), "6".to_string()]);
}
