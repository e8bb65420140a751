//! Where the ONNX model files of a model directory are, and whether they are
//! there. Paths are Unix paths held as text.

use vstd::prelude::*;

use crate::config::{precision_suffix, Device, Precision};
use crate::error::{ErrorKind, LFM2Error};
use crate::text::{concat2, concat3, owned};

verus! {

/// `Path::join` of a relative path onto a base: the base, a separator unless
/// the base is empty or already ends with one, then the relative path.
pub open spec fn path_join(base: Seq<char>, rel: Seq<char>) -> Seq<char> {
    if base.len() == 0 {
        rel
    } else if base.last() == '/' {
        base + rel
    } else {
        base + "/"@ + rel
    }
}

/// Join a relative path onto a base path.
pub fn join_path(base: &str, rel: &str) -> (r: String)
    ensures
        r@ == path_join(base@, rel@),
{
    proof {
        reveal_strlit("/");
    }
    let n = base.unicode_len();
    if n == 0 {
        owned(rel)
    } else if base.get_char(n - 1) == '/' {
        concat2(base, rel)
    } else {
        concat3(base, "/", rel)
    }
}

/// `Path::exists`: whether something is at the path. The answer comes from
/// the file system at the time of the call, so nothing is stated of it.
#[verifier::external_body]
fn path_exists(path: &str) -> bool {
    std::path::Path::new(path).exists()
}

/// File name of a model at a precision: the model's name, the precision's
/// suffix and `.onnx`.
pub open spec fn model_file_name(name: Seq<char>, p: Precision) -> Seq<char> {
    name + precision_suffix(p) + ".onnx"@
}

/// Where a model directory keeps its ONNX files.
pub open spec fn onnx_dir(model_dir: Seq<char>) -> Seq<char> {
    path_join(model_dir, "onnx"@)
}

/// Path of a model's file in a model directory.
pub open spec fn model_file_path(model_dir: Seq<char>, name: Seq<char>, p: Precision) -> Seq<char> {
    path_join(onnx_dir(model_dir), model_file_name(name, p))
}

fn file_name(name: &str, precision: Precision) -> (r: String)
    ensures
        r@ == model_file_name(name@, precision),
{
    concat3(name, precision.suffix(), ".onnx")
}

fn file_path(model_dir: &str, name: &str, precision: Precision) -> (r: String)
    ensures
        r@ == model_file_path(model_dir@, name@, precision),
{
    let dir = join_path(model_dir, "onnx");
    let f = file_name(name, precision);
    join_path(dir.as_str(), f.as_str())
}

/// Session loader configuration
pub struct SessionLoader {
    pub model_dir: String,
    pub precision: Precision,
    pub device: Device,
}

impl SessionLoader {
    pub fn new(model_dir: &str, precision: Precision, device: Device) -> (l: Self)
        ensures
            l.model_dir@ == model_dir@,
            l.precision == precision,
            l.device == device,
    {
        SessionLoader { model_dir: owned(model_dir), precision, device }
    }

    /// The path of a model's file.
    pub fn model_path(&self, name: &str) -> (r: String)
        ensures
            r@ == model_file_path(self.model_dir@, name@, self.precision),
    {
        file_path(self.model_dir.as_str(), name, self.precision)
    }

    /// The path of a model's file, if something is there; else the error
    /// naming the missing file.
    pub fn locate_model(&self, name: &str) -> (r: Result<String, LFM2Error>)
        ensures
            match r {
                Ok(path) => path@ == model_file_path(self.model_dir@, name@, self.precision),
                Err(e) => e@ == (
                    ErrorKind::ModelNotFound,
                    model_file_name(name@, self.precision) + " not found at "@ + model_file_path(
                        self.model_dir@,
                        name@,
                        self.precision,
                    ),
                ),
            },
    {
        let path = self.model_path(name);
        if !path_exists(path.as_str()) {
            let f = file_name(name, self.precision);
            return Err(
                LFM2Error::ModelNotFound(concat3(f.as_str(), " not found at ", path.as_str())),
            );
        }
        Ok(path)
    }

    /// The path of the decoder's file, if something is there; else the error
    /// naming it.
    pub fn locate_decoder(&self) -> (r: Result<String, LFM2Error>)
        ensures
            match r {
                Ok(path) => path@ == model_file_path(self.model_dir@, "decoder"@, self.precision),
                Err(e) => e@ == (
                    ErrorKind::ModelNotFound,
                    "Decoder not found at "@ + model_file_path(
                        self.model_dir@,
                        "decoder"@,
                        self.precision,
                    ),
                ),
            },
    {
        let path = self.model_path("decoder");
        if !path_exists(path.as_str()) {
            return Err(LFM2Error::ModelNotFound(concat2("Decoder not found at ", path.as_str())));
        }
        Ok(path)
    }
}

/// Model file paths for reference
pub struct ModelPaths {
    pub audio_encoder: String,
    pub decoder: String,
    pub depthformer: String,
    pub audio_detokenizer: String,
    pub audio_embedding: String,
}

/// The models that must be present, each with the name it is reported by.
pub open spec fn required_models(m: ModelPaths) -> Seq<(Seq<char>, Seq<char>)> {
    seq![
        (m.audio_encoder@, "audio_encoder"@),
        (m.decoder@, "decoder"@),
        (m.depthformer@, "depthformer"@),
        (m.audio_detokenizer@, "audio_detokenizer"@),
    ]
}

pub open spec fn missing_model_message(path: Seq<char>, name: Seq<char>) -> Seq<char> {
    "Required model "@ + name + " not found at "@ + path
}

/// The position of the first `false` among the four entries, if any.
pub open spec fn first_absent(present: Seq<bool>) -> Option<int> {
    if !present[0] {
        Some(0)
    } else if !present[1] {
        Some(1)
    } else if !present[2] {
        Some(2)
    } else if !present[3] {
        Some(3)
    } else {
        None
    }
}

impl ModelPaths {
    pub fn from_dir(dir: &str, precision: Precision) -> (m: Self)
        ensures
            m.audio_encoder@ == model_file_path(dir@, "audio_encoder"@, precision),
            m.decoder@ == model_file_path(dir@, "decoder"@, precision),
            m.depthformer@ == model_file_path(dir@, "vocoder_depthformer"@, precision),
            m.audio_detokenizer@ == model_file_path(dir@, "audio_detokenizer"@, precision),
            m.audio_embedding@ == model_file_path(dir@, "audio_embedding"@, precision),
    {
        ModelPaths {
            audio_encoder: file_path(dir, "audio_encoder", precision),
            decoder: file_path(dir, "decoder", precision),
            depthformer: file_path(dir, "vocoder_depthformer", precision),
            audio_detokenizer: file_path(dir, "audio_detokenizer", precision),
            audio_embedding: file_path(dir, "audio_embedding", precision),
        }
    }

    /// Report the first required model that is absent, given for each
    /// required model, in the order of `required_models`, whether its file is
    /// present.
    pub fn report_missing(&self, present: [bool; 4]) -> (r: Result<(), LFM2Error>)
        ensures
            first_absent(present@) matches Some(i) ==> (r matches Err(e) && e@ == (
                ErrorKind::ModelNotFound,
                missing_model_message(required_models(*self)[i].0, required_models(*self)[i].1),
            )),
            first_absent(present@) is None ==> r is Ok,
    {
        let required: [(&String, &str); 4] = [
            (&self.audio_encoder, "audio_encoder"),
            (&self.decoder, "decoder"),
            (&self.depthformer, "depthformer"),
            (&self.audio_detokenizer, "audio_detokenizer"),
        ];
        let mut i: usize = 0;
        while i < 4
            invariant
                i <= 4,
                forall|j: int| 0 <= j < i ==> #[trigger] present@[j],
                forall|j: int|
                    0 <= j < 4 ==> (#[trigger] required@[j]).0@ == required_models(*self)[j].0
                        && required@[j].1@ == required_models(*self)[j].1,
            decreases 4 - i,
        {
            if !present[i] {
                let (path, name) = required[i];
                let msg = concat3("Required model ", name, " not found at ");
                let msg = concat2(msg.as_str(), path.as_str());
                proof {
                    assert(first_absent(present@) == Some(i as int));
                }
                return Err(LFM2Error::ModelNotFound(msg));
            }
            i = i + 1;
        }
        proof {
            assert(present@[0] && present@[1] && present@[2] && present@[3]);
        }
        Ok(())
    }

    /// Check the required models in order and report the first one missing.
    /// Which one that is, if any, depends on the file system: the files are
    /// looked up one by one until one is absent, and the outcome is reported
    /// by `report_missing`.
    pub fn all_exist(&self) -> (r: Result<(), LFM2Error>)
        ensures
            r matches Err(e) ==> exists|i: int|
                0 <= i < 4 && e@ == (
                    ErrorKind::ModelNotFound,
                    missing_model_message(
                        (#[trigger] required_models(*self)[i]).0,
                        required_models(*self)[i].1,
                    ),
                ),
    {
        let paths: [&String; 4] = [
            &self.audio_encoder,
            &self.decoder,
            &self.depthformer,
            &self.audio_detokenizer,
        ];
        let mut absent: usize = 4;
        let mut i: usize = 0;
        while i < 4
            invariant
                i <= 4,
                absent <= 4,
            decreases 4 - i,
        {
            if absent == 4 && !path_exists(paths[i].as_str()) {
                absent = i;
            }
            i = i + 1;
        }
        let present: [bool; 4] = [absent != 0, absent != 1, absent != 2, absent != 3];
        let r = self.report_missing(present);
        proof {
            if absent < 4 {
                assert(first_absent(present@) == Some(absent as int));
            }
        }
        r
    }
}

} // verus!
