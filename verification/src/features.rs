//! The earliest PDF version that supports each feature.
use vstd::prelude::*;

use crate::version::Version;

verus! {

/// Features of the PDF format, listed by the version that introduced them.
#[derive(Debug, Clone, Copy, PartialEq, Eq, Structural)]
pub enum Feature {
    Text,
    Images,
    Pages,
    HypertextLinks,
    Bookmarks,
    ThumbnailSketches,

    Rc4Encryption40bit,
    Links,
    Threads,
    Password,
    DeviceIndependentColor,
    BinaryFormat,

    Forms,
    Unicode,
    MultimediaFeatures,
    Opi13,
    CmykAndSpot,
    EmbeddedHalftoneFunctions,
    OverprintInstructions,

    TwoByteCidFonts,
    Opi20,
    AddtlColorSpaces,
    SmoothShading,
    Annotations,
    DigitalSignatures,
    JavaScriptActions,
    Rc4Encryption,

    Transparency,
    JavaScript15,
    TaggedPdf,
    Jbig2Compression,
    RC4Encryption128bit,

    ObjectStreams,
    JPEG2000Compression,
    EnhancedXrefTable,
    XRefStreams,
    XObjectStreams,
    Layers,
    ImprovedTaggedPdf,
    XmlFormsArchitectureXFA,
    AdditionalTransitions,

    NChannel,
    AesEncryption,
    EnhancedAnnotations,
    EnhancedTagging,
    OpenTypeFontDirectEmbedding,
    EmbeddedFiles,
    Embedded3dData,
    XmlForms,

    ImprovedCommenting,
    ImprovedSecurity,
    CommentsIn3dObjects,
    Enhanced3dAnimationControl,
    EmbeddedDefaultPrinterSettings,
}

/// The earliest version that supports a feature.
pub open spec fn feature_min_version(f: Feature) -> Version {
    match f {
        Feature::Text |
        Feature::Images |
        Feature::Pages |
        Feature::HypertextLinks |
        Feature::Bookmarks |
        Feature::ThumbnailSketches => Version::V1_0,
        Feature::Rc4Encryption40bit |
        Feature::Links |
        Feature::Threads |
        Feature::Password |
        Feature::DeviceIndependentColor |
        Feature::BinaryFormat => Version::V1_1,
        Feature::Forms |
        Feature::Unicode |
        Feature::MultimediaFeatures |
        Feature::Opi13 |
        Feature::CmykAndSpot |
        Feature::EmbeddedHalftoneFunctions |
        Feature::OverprintInstructions => Version::V1_2,
        Feature::TwoByteCidFonts |
        Feature::Opi20 |
        Feature::AddtlColorSpaces |
        Feature::SmoothShading |
        Feature::Annotations |
        Feature::DigitalSignatures |
        Feature::JavaScriptActions |
        Feature::Rc4Encryption => Version::V1_3,
        Feature::Transparency |
        Feature::JavaScript15 |
        Feature::TaggedPdf |
        Feature::Jbig2Compression |
        Feature::RC4Encryption128bit => Version::V1_4,
        Feature::ObjectStreams |
        Feature::JPEG2000Compression |
        Feature::EnhancedXrefTable |
        Feature::XRefStreams |
        Feature::XObjectStreams |
        Feature::Layers |
        Feature::ImprovedTaggedPdf |
        Feature::XmlFormsArchitectureXFA |
        Feature::AdditionalTransitions => Version::V1_5,
        Feature::NChannel |
        Feature::AesEncryption |
        Feature::EnhancedAnnotations |
        Feature::EnhancedTagging |
        Feature::OpenTypeFontDirectEmbedding |
        Feature::EmbeddedFiles |
        Feature::Embedded3dData |
        Feature::XmlForms => Version::V1_6,
        Feature::ImprovedCommenting |
        Feature::ImprovedSecurity |
        Feature::CommentsIn3dObjects |
        Feature::Enhanced3dAnimationControl |
        Feature::EmbeddedDefaultPrinterSettings => Version::V1_7,
    }
}

/// The features each PDF version introduced, version by version: a feature's earliest
/// version is PDF 1.x exactly when the feature is among those that PDF 1.x added.
pub proof fn lemma_features_by_version()
    ensures
        forall|f: Feature| #[trigger] feature_min_version(f) == Version::V1_0 <==> (
            f == Feature::Text
                || f == Feature::Images
                || f == Feature::Pages
                || f == Feature::HypertextLinks
                || f == Feature::Bookmarks
                || f == Feature::ThumbnailSketches
        ),
        forall|f: Feature| #[trigger] feature_min_version(f) == Version::V1_1 <==> (
            f == Feature::Rc4Encryption40bit
                || f == Feature::Links
                || f == Feature::Threads
                || f == Feature::Password
                || f == Feature::DeviceIndependentColor
                || f == Feature::BinaryFormat
        ),
        forall|f: Feature| #[trigger] feature_min_version(f) == Version::V1_2 <==> (
            f == Feature::Forms
                || f == Feature::Unicode
                || f == Feature::MultimediaFeatures
                || f == Feature::Opi13
                || f == Feature::CmykAndSpot
                || f == Feature::EmbeddedHalftoneFunctions
                || f == Feature::OverprintInstructions
        ),
        forall|f: Feature| #[trigger] feature_min_version(f) == Version::V1_3 <==> (
            f == Feature::TwoByteCidFonts
                || f == Feature::Opi20
                || f == Feature::AddtlColorSpaces
                || f == Feature::SmoothShading
                || f == Feature::Annotations
                || f == Feature::DigitalSignatures
                || f == Feature::JavaScriptActions
                || f == Feature::Rc4Encryption
        ),
        forall|f: Feature| #[trigger] feature_min_version(f) == Version::V1_4 <==> (
            f == Feature::Transparency
                || f == Feature::JavaScript15
                || f == Feature::TaggedPdf
                || f == Feature::Jbig2Compression
                || f == Feature::RC4Encryption128bit
        ),
        forall|f: Feature| #[trigger] feature_min_version(f) == Version::V1_5 <==> (
            f == Feature::ObjectStreams
                || f == Feature::JPEG2000Compression
                || f == Feature::EnhancedXrefTable
                || f == Feature::XRefStreams
                || f == Feature::XObjectStreams
                || f == Feature::Layers
                || f == Feature::ImprovedTaggedPdf
                || f == Feature::XmlFormsArchitectureXFA
                || f == Feature::AdditionalTransitions
        ),
        forall|f: Feature| #[trigger] feature_min_version(f) == Version::V1_6 <==> (
            f == Feature::NChannel
                || f == Feature::AesEncryption
                || f == Feature::EnhancedAnnotations
                || f == Feature::EnhancedTagging
                || f == Feature::OpenTypeFontDirectEmbedding
                || f == Feature::EmbeddedFiles
                || f == Feature::Embedded3dData
                || f == Feature::XmlForms
        ),
        forall|f: Feature| #[trigger] feature_min_version(f) == Version::V1_7 <==> (
            f == Feature::ImprovedCommenting
                || f == Feature::ImprovedSecurity
                || f == Feature::CommentsIn3dObjects
                || f == Feature::Enhanced3dAnimationControl
                || f == Feature::EmbeddedDefaultPrinterSettings
        ),
        forall|f: Feature| crate::version::version_rank(#[trigger] feature_min_version(f)) <= 7,
{
}

impl Feature {
    pub fn min_version(self) -> (v: Version)
        ensures
            v == feature_min_version(self),
            crate::version::version_rank(v) <= 7,
    {
        match self {
            Feature::Text |
            Feature::Images |
            Feature::Pages |
            Feature::HypertextLinks |
            Feature::Bookmarks |
            Feature::ThumbnailSketches => Version::V1_0,
            Feature::Rc4Encryption40bit |
            Feature::Links |
            Feature::Threads |
            Feature::Password |
            Feature::DeviceIndependentColor |
            Feature::BinaryFormat => Version::V1_1,
            Feature::Forms |
            Feature::Unicode |
            Feature::MultimediaFeatures |
            Feature::Opi13 |
            Feature::CmykAndSpot |
            Feature::EmbeddedHalftoneFunctions |
            Feature::OverprintInstructions => Version::V1_2,
            Feature::TwoByteCidFonts |
            Feature::Opi20 |
            Feature::AddtlColorSpaces |
            Feature::SmoothShading |
            Feature::Annotations |
            Feature::DigitalSignatures |
            Feature::JavaScriptActions |
            Feature::Rc4Encryption => Version::V1_3,
            Feature::Transparency |
            Feature::JavaScript15 |
            Feature::TaggedPdf |
            Feature::Jbig2Compression |
            Feature::RC4Encryption128bit => Version::V1_4,
            Feature::ObjectStreams |
            Feature::JPEG2000Compression |
            Feature::EnhancedXrefTable |
            Feature::XRefStreams |
            Feature::XObjectStreams |
            Feature::Layers |
            Feature::ImprovedTaggedPdf |
            Feature::XmlFormsArchitectureXFA |
            Feature::AdditionalTransitions => Version::V1_5,
            Feature::NChannel |
            Feature::AesEncryption |
            Feature::EnhancedAnnotations |
            Feature::EnhancedTagging |
            Feature::OpenTypeFontDirectEmbedding |
            Feature::EmbeddedFiles |
            Feature::Embedded3dData |
            Feature::XmlForms => Version::V1_6,
            Feature::ImprovedCommenting |
            Feature::ImprovedSecurity |
            Feature::CommentsIn3dObjects |
            Feature::Enhanced3dAnimationControl |
            Feature::EmbeddedDefaultPrinterSettings => Version::V1_7,
        }
    }
}

} // verus!
