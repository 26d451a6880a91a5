//! The codec capabilities that the relay asks every router to support.

use crate::session::MediaKind;
use vstd::prelude::*;

verus! {

/// The codecs that the relay knows by name.
#[derive(Debug, Clone, Copy, PartialEq, Eq, Structural, Hash)]
pub enum MimeType {
    Opus,
    H264,
    Vp8,
}

/// The kinds of RTCP feedback a codec can be offered with.
#[derive(Debug, Clone, Copy, PartialEq, Eq, Structural, Hash)]
pub enum RtcpFeedback {
    Nack,
    NackPli,
    CcmFir,
    GoogRemb,
    TransportCc,
}

/// The value of a codec parameter.
#[derive(Debug)]
pub enum ParameterValue {
    Number(u32),
    Text(String),
}

/// A codec parameter.
#[derive(Debug)]
pub struct CodecParameter {
    pub name: String,
    pub value: ParameterValue,
}

/// One codec that a router is asked to support.
#[derive(Debug)]
pub struct RtpCodecCapability {
    pub kind: MediaKind,
    pub mime_type: MimeType,
    pub preferred_payload_type: Option<u8>,
    pub clock_rate: u32,
    /// The number of audio channels; video has none.
    pub channels: Option<u8>,
    pub parameters: Vec<CodecParameter>,
    pub rtcp_feedback: Vec<RtcpFeedback>,
}

/// The value of a codec parameter, as a mathematical value.
pub enum Setting {
    Number(u32),
    Text(Seq<char>),
}

/// A codec capability as a mathematical value.
pub struct Codec {
    pub kind: MediaKind,
    pub mime_type: MimeType,
    pub preferred_payload_type: Option<u8>,
    pub clock_rate: u32,
    pub channels: Option<u8>,
    pub parameters: Seq<(Seq<char>, Setting)>,
    pub rtcp_feedback: Seq<RtcpFeedback>,
}

impl View for CodecParameter {
    type V = (Seq<char>, Setting);

    open spec fn view(&self) -> (Seq<char>, Setting) {
        (
            self.name@,
            match self.value {
                ParameterValue::Number(n) => Setting::Number(n),
                ParameterValue::Text(text) => Setting::Text(text@),
            },
        )
    }
}

impl View for RtpCodecCapability {
    type V = Codec;

    open spec fn view(&self) -> Codec {
        Codec {
            kind: self.kind,
            mime_type: self.mime_type,
            preferred_payload_type: self.preferred_payload_type,
            clock_rate: self.clock_rate,
            channels: self.channels,
            parameters: Seq::new(self.parameters.len() as nat, |i: int| self.parameters[i]@),
            rtcp_feedback: self.rtcp_feedback@,
        }
    }
}

/// The feedback that every video codec is offered with.
pub open spec fn video_feedback() -> Seq<RtcpFeedback> {
    seq![
        RtcpFeedback::Nack,
        RtcpFeedback::NackPli,
        RtcpFeedback::CcmFir,
        RtcpFeedback::GoogRemb,
        RtcpFeedback::TransportCc,
    ]
}

/// Opus at 48 kHz in stereo, with in-band forward error correction.
pub open spec fn opus() -> Codec {
    Codec {
        kind: MediaKind::Audio,
        mime_type: MimeType::Opus,
        preferred_payload_type: None,
        clock_rate: 48000,
        channels: Some(2),
        parameters: seq![("useinbandfec"@, Setting::Number(1))],
        rtcp_feedback: seq![RtcpFeedback::TransportCc],
    }
}

/// H.264 at 90 kHz in packetization mode 1, at the given profile and level.
pub open spec fn h264(profile_level_id: Seq<char>) -> Codec {
    Codec {
        kind: MediaKind::Video,
        mime_type: MimeType::H264,
        preferred_payload_type: None,
        clock_rate: 90000,
        channels: None,
        parameters: seq![
            ("packetization-mode"@, Setting::Number(1)),
            ("level-asymmetry-allowed"@, Setting::Number(1)),
            ("profile-level-id"@, Setting::Text(profile_level_id)),
        ],
        rtcp_feedback: video_feedback(),
    }
}

/// VP8 at 90 kHz.
pub open spec fn vp8() -> Codec {
    Codec {
        kind: MediaKind::Video,
        mime_type: MimeType::Vp8,
        preferred_payload_type: None,
        clock_rate: 90000,
        channels: None,
        parameters: Seq::empty(),
        rtcp_feedback: video_feedback(),
    }
}

/// The codec table as a mathematical value: Opus, H.264 at the baseline,
/// main and high profiles, and VP8.
pub open spec fn codec_table() -> Seq<Codec> {
    seq![opus(), h264("42e01f"@), h264("4d0032"@), h264("64002a"@), vp8()]
}

/// The codecs of a table, each as a mathematical value.
pub open spec fn codecs_of(table: Seq<RtpCodecCapability>) -> Seq<Codec> {
    Seq::new(table.len(), |i: int| table[i]@)
}

fn make_video_feedback() -> (feedback: Vec<RtcpFeedback>)
    ensures
        feedback@ == video_feedback(),
{
    let mut feedback: Vec<RtcpFeedback> = Vec::new();
    feedback.push(RtcpFeedback::Nack);
    feedback.push(RtcpFeedback::NackPli);
    feedback.push(RtcpFeedback::CcmFir);
    feedback.push(RtcpFeedback::GoogRemb);
    feedback.push(RtcpFeedback::TransportCc);
    assert(feedback@ =~= video_feedback());
    feedback
}

fn make_opus() -> (codec: RtpCodecCapability)
    ensures
        codec@ == opus(),
{
    let mut parameters: Vec<CodecParameter> = Vec::new();
    parameters.push(
        CodecParameter { name: "useinbandfec".to_owned(), value: ParameterValue::Number(1) },
    );
    let mut rtcp_feedback: Vec<RtcpFeedback> = Vec::new();
    rtcp_feedback.push(RtcpFeedback::TransportCc);
    let codec = RtpCodecCapability {
        kind: MediaKind::Audio,
        mime_type: MimeType::Opus,
        preferred_payload_type: None,
        clock_rate: 48000,
        channels: Some(2),
        parameters,
        rtcp_feedback,
    };
    assert(codec@.parameters =~= opus().parameters);
    assert(codec@.rtcp_feedback =~= opus().rtcp_feedback);
    codec
}

fn make_h264(profile_level_id: &str) -> (codec: RtpCodecCapability)
    ensures
        codec@ == h264(profile_level_id@),
{
    let mut parameters: Vec<CodecParameter> = Vec::new();
    parameters.push(
        CodecParameter { name: "packetization-mode".to_owned(), value: ParameterValue::Number(1) },
    );
    parameters.push(
        CodecParameter {
            name: "level-asymmetry-allowed".to_owned(),
            value: ParameterValue::Number(1),
        },
    );
    parameters.push(
        CodecParameter {
            name: "profile-level-id".to_owned(),
            value: ParameterValue::Text(profile_level_id.to_owned()),
        },
    );
    let codec = RtpCodecCapability {
        kind: MediaKind::Video,
        mime_type: MimeType::H264,
        preferred_payload_type: None,
        clock_rate: 90000,
        channels: None,
        parameters,
        rtcp_feedback: make_video_feedback(),
    };
    assert(codec@.parameters =~= h264(profile_level_id@).parameters);
    codec
}

fn make_vp8() -> (codec: RtpCodecCapability)
    ensures
        codec@ == vp8(),
{
    let codec = RtpCodecCapability {
        kind: MediaKind::Video,
        mime_type: MimeType::Vp8,
        preferred_payload_type: None,
        clock_rate: 90000,
        channels: None,
        parameters: Vec::new(),
        rtcp_feedback: make_video_feedback(),
    };
    assert(codec@.parameters =~= vp8().parameters);
    codec
}

/// The codecs that the relay asks every router to support.
pub fn media_codecs() -> (codecs: Vec<RtpCodecCapability>)
    ensures
        codecs_of(codecs@) == codec_table(),
{
    let mut codecs: Vec<RtpCodecCapability> = Vec::new();
    codecs.push(make_opus());
    codecs.push(make_h264("42e01f"));
    codecs.push(make_h264("4d0032"));
    codecs.push(make_h264("64002a"));
    codecs.push(make_vp8());
    assert(codecs_of(codecs@) =~= codec_table());
    codecs
}

} // verus!
