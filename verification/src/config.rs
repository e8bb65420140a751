//! Model precision, device and layer kinds, and the depthformer configuration.

use vstd::prelude::*;

use crate::text::{ascii_lowercase, concat2, is_ascii_text, str_eq, to_lowercase, unicode_lowercase};

verus! {

/// Model precision variants
#[derive(Debug, Clone, Copy, PartialEq, Eq, Structural)]
pub enum Precision {
    FP32,
    FP16,
    Q4,
    Q8,
}

/// File-name suffix of each precision.
pub open spec fn precision_suffix(p: Precision) -> Seq<char> {
    match p {
        Precision::FP32 => ""@,
        Precision::FP16 => "_fp16"@,
        Precision::Q4 => "_q4"@,
        Precision::Q8 => "_q8"@,
    }
}

/// Name of each precision.
pub open spec fn precision_name(p: Precision) -> Seq<char> {
    match p {
        Precision::FP32 => "fp32"@,
        Precision::FP16 => "fp16"@,
        Precision::Q4 => "q4"@,
        Precision::Q8 => "q8"@,
    }
}

/// The precision whose name is `lower`, if any.
pub open spec fn precision_named(lower: Seq<char>) -> Option<Precision> {
    if lower == "fp32"@ {
        Some(Precision::FP32)
    } else if lower == "fp16"@ {
        Some(Precision::FP16)
    } else if lower == "q4"@ {
        Some(Precision::Q4)
    } else if lower == "q8"@ {
        Some(Precision::Q8)
    } else {
        None
    }
}

impl Precision {
    pub fn suffix(&self) -> (s: &'static str)
        ensures
            s@ == precision_suffix(*self),
    {
        match self {
            Precision::FP32 => "",
            Precision::FP16 => "_fp16",
            Precision::Q4 => "_q4",
            Precision::Q8 => "_q8",
        }
    }

    pub fn as_str(&self) -> (s: &'static str)
        ensures
            s@ == precision_name(*self),
    {
        match self {
            Precision::FP32 => "fp32",
            Precision::FP16 => "fp16",
            Precision::Q4 => "q4",
            Precision::Q8 => "q8",
        }
    }

    /// Parse a precision name, case-insensitively (by Unicode lowercase).
    pub fn parse(s: &str) -> (r: Result<Precision, String>)
        ensures
            precision_named(unicode_lowercase(s@)) matches Some(p) ==> r == Ok::<
                Precision,
                String,
            >(p),
            precision_named(unicode_lowercase(s@)) is None ==> (r matches Err(m) && m@
                == "Unknown precision: "@ + s@),
            is_ascii_text(s@) ==> unicode_lowercase(s@) == ascii_lowercase(s@),
    {
        let lower = to_lowercase(s);
        let l = lower.as_str();
        if str_eq(l, "fp32") {
            Ok(Precision::FP32)
        } else if str_eq(l, "fp16") {
            Ok(Precision::FP16)
        } else if str_eq(l, "q4") {
            Ok(Precision::Q4)
        } else if str_eq(l, "q8") {
            Ok(Precision::Q8)
        } else {
            Err(concat2("Unknown precision: ", s))
        }
    }
}

impl core::str::FromStr for Precision {
    type Err = String;

    /// Parse a precision name, as `Precision::parse` does.
    fn from_str(s: &str) -> (r: core::result::Result<Self, Self::Err>)
        ensures
            precision_named(unicode_lowercase(s@)) matches Some(p) ==> r == Ok::<
                Precision,
                String,
            >(p),
            precision_named(unicode_lowercase(s@)) is None ==> (r matches Err(m) && m@
                == "Unknown precision: "@ + s@),
            is_ascii_text(s@) ==> unicode_lowercase(s@) == ascii_lowercase(s@),
    {
        Precision::parse(s)
    }
}

/// Device selection for inference
#[derive(Debug, Clone, Copy, PartialEq, Eq, Structural)]
pub enum Device {
    CPU,
    Cuda,
    CoreML,
    DirectML,
    TensorRT,
}

/// Layer types in LFM2 model
#[derive(Debug, Clone, Copy, PartialEq, Eq, Structural)]
pub enum LayerType {
    Conv,
    FullAttention,
}

/// The layer type named in the model configuration.
pub open spec fn layer_type_named(name: Seq<char>) -> Option<LayerType> {
    if name == "conv"@ {
        Some(LayerType::Conv)
    } else if name == "full_attention"@ {
        Some(LayerType::FullAttention)
    } else {
        None
    }
}

impl LayerType {
    /// The layer type with this configuration name, if any.
    pub fn from_name(name: &str) -> (r: Option<LayerType>)
        ensures
            r == layer_type_named(name@),
    {
        if str_eq(name, "conv") {
            Some(LayerType::Conv)
        } else if str_eq(name, "full_attention") {
            Some(LayerType::FullAttention)
        } else {
            None
        }
    }
}

/// Depthformer configuration
#[derive(Debug, Clone, Copy, PartialEq, Eq, Structural)]
pub struct DepthformerConfig {
    pub layers: usize,
    pub dim: usize,
    pub tie: bool,
}

/// A precision's name reads back as that precision, whatever the ASCII case
/// it is written in, and no two precisions share a name. With the clause of
/// `Precision::parse` that lower-cases ASCII text the ASCII way, parsing
/// `p.as_str()`, or any ASCII text that lower-cases to it, gives `p`.
pub proof fn lemma_precision_name_round_trip(p: Precision, q: Precision, s: Seq<char>)
    requires
        ascii_lowercase(s) == precision_name(p),
    ensures
        is_ascii_text(precision_name(p)),
        ascii_lowercase(precision_name(p)) == precision_name(p),
        precision_named(precision_name(p)) == Some(p),
        precision_named(ascii_lowercase(s)) == Some(p),
        p != q ==> precision_name(p) != precision_name(q),
{
    reveal_strlit("fp32");
    reveal_strlit("fp16");
    reveal_strlit("q4");
    reveal_strlit("q8");
    assert("fp32"@[2] != "fp16"@[2]);
    assert("fp32"@.len() != "q4"@.len());
    assert("fp32"@.len() != "q8"@.len());
    assert("fp16"@.len() != "q4"@.len());
    assert("fp16"@.len() != "q8"@.len());
    assert("q4"@[1] != "q8"@[1]);
    assert(ascii_lowercase(precision_name(p)) =~= precision_name(p));
}

} // verus!
