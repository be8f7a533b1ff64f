//! Runtime capability reporting.

use vstd::prelude::*;

verus! {

/// A capability of the application.
#[derive(Debug, Clone, Copy)]
pub struct Capability {
    pub id: &'static str,
    pub available: bool,
    pub implementation: &'static str,
    pub requirement: Option<&'static str>,
}

/// A capability, with its texts as sequences.
pub struct Feature {
    pub id: Seq<char>,
    pub available: bool,
    pub implementation: Seq<char>,
    pub requirement: Option<Seq<char>>,
}

impl View for Capability {
    type V = Feature;

    open spec fn view(&self) -> Feature {
        Feature {
            id: self.id@,
            available: self.available,
            implementation: self.implementation@,
            requirement: match self.requirement {
                Some(text) => Some(text@),
                None => None,
            },
        }
    }
}

/// What capabilities are.
pub open spec fn features_of(v: Seq<Capability>) -> Seq<Feature> {
    v.map_values(|x: Capability| x@)
}

/// What was found out about the machine and the build.
#[derive(Debug, Clone, Copy, PartialEq, Eq, Structural)]
pub struct FeatureProbes {
    pub wia: bool,
    pub sane: bool,
    pub cjxl: bool,
    pub tesseract: bool,
    pub gui: bool,
}

/// The capabilities of the application: only those that need something of the machine or the build
/// depend on what was found there.
#[verifier::opaque]
pub open spec fn feature_list(probes: FeatureProbes) -> Seq<Feature> {
    seq![
        Feature {
            id: "device.mock"@,
            available: true,
            implementation: "built in"@,
            requirement: None,
        },
        Feature {
            id: "device.file"@,
            available: true,
            implementation: "built in"@,
            requirement: None,
        },
        Feature {
            id: "device.wia"@,
            available: probes.wia,
            implementation: "Windows Image Acquisition command adapter"@,
            requirement: Some("Windows and PowerShell with WIA support"@),
        },
        Feature {
            id: "device.sane"@,
            available: probes.sane,
            implementation: "scanimage command adapter"@,
            requirement: Some("scanimage on PATH"@),
        },
        Feature {
            id: "device.escl"@,
            available: true,
            implementation: "HTTP/HTTPS eSCL client with explicit, mDNS and bounded subnet discovery"@,
            requirement: Some("network access to an eSCL scanner"@),
        },
        Feature {
            id: "codec.png"@,
            available: true,
            implementation: "image crate"@,
            requirement: None,
        },
        Feature {
            id: "codec.jpeg"@,
            available: true,
            implementation: "image crate"@,
            requirement: None,
        },
        Feature {
            id: "codec.tiff"@,
            available: true,
            implementation: "image and tiff crates"@,
            requirement: None,
        },
        Feature {
            id: "codec.webp"@,
            available: true,
            implementation: "image crate"@,
            requirement: None,
        },
        Feature {
            id: "codec.bmp"@,
            available: true,
            implementation: "image crate"@,
            requirement: None,
        },
        Feature {
            id: "codec.gif"@,
            available: true,
            implementation: "image crate"@,
            requirement: None,
        },
        Feature {
            id: "codec.jpeg-xl"@,
            available: probes.cjxl,
            implementation: "libjxl command integration"@,
            requirement: Some("cjxl on PATH"@),
        },
        Feature {
            id: "format.pdf"@,
            available: true,
            implementation: "lopdf"@,
            requirement: None,
        },
        Feature {
            id: "format.pdf-searchable"@,
            available: true,
            implementation: "lopdf plus selected OCR engine"@,
            requirement: None,
        },
        Feature {
            id: "format.pdf-aes256"@,
            available: true,
            implementation: "lopdf PDF 2.0 AES-256 encryption"@,
            requirement: None,
        },
        Feature {
            id: "format.multipage-pdf"@,
            available: true,
            implementation: "lopdf"@,
            requirement: None,
        },
        Feature {
            id: "format.multipage-tiff"@,
            available: true,
            implementation: "tiff crate"@,
            requirement: None,
        },
        Feature {
            id: "pipeline"@,
            available: true,
            implementation: "built in"@,
            requirement: None,
        },
        Feature {
            id: "pipeline.scanner-profile"@,
            available: true,
            implementation: "validated open-scanline IT8 profile correction"@,
            requirement: None,
        },
        Feature {
            id: "ocr.offline-5x7"@,
            available: true,
            implementation: "built in"@,
            requirement: None,
        },
        Feature {
            id: "ocr.tesseract"@,
            available: probes.tesseract,
            implementation: "Tesseract command integration"@,
            requirement: Some("tesseract on PATH"@),
        },
        Feature {
            id: "ml.user-onnx"@,
            available: true,
            implementation: "tract"@,
            requirement: None,
        },
        Feature {
            id: "batch.streaming"@,
            available: true,
            implementation: "bounded one-session logical-side stream"@,
            requirement: None,
        },
        Feature {
            id: "gui"@,
            available: probes.gui,
            implementation: "egui/eframe"@,
            requirement: Some("gui feature"@),
        },
        Feature {
            id: "gui.native-dialogs"@,
            available: probes.gui,
            implementation: "rfd"@,
            requirement: Some("gui feature and a desktop session"@),
        },
        Feature {
            id: "config"@,
            available: true,
            implementation: "JSON application config"@,
            requirement: None,
        },
        Feature {
            id: "i18n"@,
            available: true,
            implementation: "29 embedded catalogs"@,
            requirement: None,
        },
        Feature {
            id: "packaging"@,
            available: true,
            implementation: "zip crate with launch validation"@,
            requirement: None,
        },
        Feature {
            id: "twain.host-integration"@,
            available: true,
            implementation: "headless plugin host launcher"@,
            requirement: Some("a separate TWAIN-capable host or bridge"@),
        },
    ]
}

fn capability(
    id: &'static str,
    available: bool,
    implementation: &'static str,
    requirement: Option<&'static str>,
) -> (r: Capability)
    ensures
        r@ == (Feature {
            id: id@,
            available,
            implementation: implementation@,
            requirement: match requirement {
                Some(text) => Some(text@),
                None => None,
            },
        }),
{
    Capability { id, available, implementation, requirement }
}

/// Lists the capabilities of the application.
pub fn feature_matrix(probes: FeatureProbes) -> (r: Vec<Capability>)
    ensures
        features_of(r@) == feature_list(probes),
{
    let mut features: Vec<Capability> = Vec::new();
    features.push(
        capability(
            "device.mock",
            true,
            "built in",
            None,
        ),
    );
    features.push(
        capability(
            "device.file",
            true,
            "built in",
            None,
        ),
    );
    features.push(
        capability(
            "device.wia",
            probes.wia,
            "Windows Image Acquisition command adapter",
            Some("Windows and PowerShell with WIA support"),
        ),
    );
    features.push(
        capability(
            "device.sane",
            probes.sane,
            "scanimage command adapter",
            Some("scanimage on PATH"),
        ),
    );
    features.push(
        capability(
            "device.escl",
            true,
            "HTTP/HTTPS eSCL client with explicit, mDNS and bounded subnet discovery",
            Some("network access to an eSCL scanner"),
        ),
    );
    features.push(
        capability(
            "codec.png",
            true,
            "image crate",
            None,
        ),
    );
    features.push(
        capability(
            "codec.jpeg",
            true,
            "image crate",
            None,
        ),
    );
    features.push(
        capability(
            "codec.tiff",
            true,
            "image and tiff crates",
            None,
        ),
    );
    features.push(
        capability(
            "codec.webp",
            true,
            "image crate",
            None,
        ),
    );
    features.push(
        capability(
            "codec.bmp",
            true,
            "image crate",
            None,
        ),
    );
    features.push(
        capability(
            "codec.gif",
            true,
            "image crate",
            None,
        ),
    );
    features.push(
        capability(
            "codec.jpeg-xl",
            probes.cjxl,
            "libjxl command integration",
            Some("cjxl on PATH"),
        ),
    );
    features.push(
        capability(
            "format.pdf",
            true,
            "lopdf",
            None,
        ),
    );
    features.push(
        capability(
            "format.pdf-searchable",
            true,
            "lopdf plus selected OCR engine",
            None,
        ),
    );
    features.push(
        capability(
            "format.pdf-aes256",
            true,
            "lopdf PDF 2.0 AES-256 encryption",
            None,
        ),
    );
    features.push(
        capability(
            "format.multipage-pdf",
            true,
            "lopdf",
            None,
        ),
    );
    features.push(
        capability(
            "format.multipage-tiff",
            true,
            "tiff crate",
            None,
        ),
    );
    features.push(
        capability(
            "pipeline",
            true,
            "built in",
            None,
        ),
    );
    features.push(
        capability(
            "pipeline.scanner-profile",
            true,
            "validated open-scanline IT8 profile correction",
            None,
        ),
    );
    features.push(
        capability(
            "ocr.offline-5x7",
            true,
            "built in",
            None,
        ),
    );
    features.push(
        capability(
            "ocr.tesseract",
            probes.tesseract,
            "Tesseract command integration",
            Some("tesseract on PATH"),
        ),
    );
    features.push(
        capability(
            "ml.user-onnx",
            true,
            "tract",
            None,
        ),
    );
    features.push(
        capability(
            "batch.streaming",
            true,
            "bounded one-session logical-side stream",
            None,
        ),
    );
    features.push(
        capability(
            "gui",
            probes.gui,
            "egui/eframe",
            Some("gui feature"),
        ),
    );
    features.push(
        capability(
            "gui.native-dialogs",
            probes.gui,
            "rfd",
            Some("gui feature and a desktop session"),
        ),
    );
    features.push(
        capability(
            "config",
            true,
            "JSON application config",
            None,
        ),
    );
    features.push(
        capability(
            "i18n",
            true,
            "29 embedded catalogs",
            None,
        ),
    );
    features.push(
        capability(
            "packaging",
            true,
            "zip crate with launch validation",
            None,
        ),
    );
    features.push(
        capability(
            "twain.host-integration",
            true,
            "headless plugin host launcher",
            Some("a separate TWAIN-capable host or bridge"),
        ),
    );
    proof {
        reveal(feature_list);
        assert(features_of(features@) =~= feature_list(probes));
    }
    features
}

/// A capability is available on every machine unless it states a requirement.
pub proof fn unconditional_features_are_available(probes: FeatureProbes)
    ensures
        forall|i: int|
            0 <= i < feature_list(probes).len() && (#[trigger] feature_list(
                probes,
            )[i]).requirement is None ==> feature_list(probes)[i].available,
{
    reveal(feature_list);
}

/// What a capability needs of the machine or the build is what its availability depends on.
pub proof fn features_follow_their_probes(probes: FeatureProbes)
    ensures
        exists|i: int|
            0 <= i < feature_list(probes).len() && (#[trigger] feature_list(probes)[i]).id == "device.wia"@
                && feature_list(probes)[i].available == probes.wia,
        exists|i: int|
            0 <= i < feature_list(probes).len() && (#[trigger] feature_list(probes)[i]).id
                == "device.sane"@ && feature_list(probes)[i].available == probes.sane,
        exists|i: int|
            0 <= i < feature_list(probes).len() && (#[trigger] feature_list(probes)[i]).id
                == "codec.jpeg-xl"@ && feature_list(probes)[i].available == probes.cjxl,
        exists|i: int|
            0 <= i < feature_list(probes).len() && (#[trigger] feature_list(probes)[i]).id
                == "ocr.tesseract"@ && feature_list(probes)[i].available == probes.tesseract,
{
    reveal(feature_list);
    let list = feature_list(probes);
    assert(list[2].id == "device.wia"@);
    assert(list[3].id == "device.sane"@);
    assert(list[11].id == "codec.jpeg-xl"@);
    assert(list[20].id == "ocr.tesseract"@);
}

} // verus!
