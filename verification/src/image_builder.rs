//! The image builder's compute side: compressing the context archive,
//! forming the tagged image reference, deriving the build tag from the run
//! identifier, and interpreting build-response records. Submitting the
//! build and draining its response stream are engine API calls performed by
//! the unverified shell around this crate.
use vstd::prelude::*;

use crate::context_builder::{join_segments, rel_segments, spec_join_segments, spec_rel_segments};
use crate::errors::ImageBuildError;
use crate::text::{first_index_of, lemma_first_index_bounds, spec_first_index};

verus! {

/// The gzip rendering of a byte sequence, at the default compression
/// level: the encoder writes a fixed header (zero timestamp, fixed
/// system byte), so the result is a function of the input bytes alone.
pub uninterp spec fn gzip_of(data: Seq<u8>) -> Seq<u8>;

/// Relies on `flate2::write::GzEncoder` at the default compression level:
/// compresses the archive bytes to their gzip rendering; an I/O failure
/// inside the encoder is returned as its message.
#[verifier::external_body]
fn gzip_compress(data: &Vec<u8>) -> (r: Result<Vec<u8>, String>)
    ensures
        r matches Ok(b) ==> b@ == gzip_of(data@),
{
    let mut encoder = flate2::write::GzEncoder::new(Vec::new(), flate2::Compression::default());
    if let Err(e) = std::io::Write::write_all(&mut encoder, data.as_slice()) {
        return Err(format!("{e}"));
    }
    match encoder.finish() {
        Ok(bytes) => Ok(bytes),
        Err(e) => Err(format!("{e}")),
    }
}

/// Compresses a context archive for submission to the build API: on
/// success the result is exactly the archive's gzip rendering; a failure
/// inside the compressor is an `ImageBuildError::Compression`.
pub fn compress_context(context: &Vec<u8>) -> (r: Result<Vec<u8>, ImageBuildError>)
    ensures
        r matches Ok(b) ==> b@ == gzip_of(context@),
        r matches Err(e) ==> e is Compression,
{
    match gzip_compress(context) {
        Ok(bytes) => Ok(bytes),
        Err(msg) => Err(ImageBuildError::Compression(msg)),
    }
}

/// The tagged image reference, `name:tag`.
pub fn image_name_with_tag(image_name: &str, tag: &str) -> (r: String)
    ensures
        r@ == image_name@ + ":"@ + tag@,
{
    let mut r = image_name.to_owned();
    r.append(":");
    r.append(tag);
    r
}

/// The image tag derived from the run identifier: its first
/// hyphen-separated segment, or `latest` when it contains no hyphen.
pub open spec fn spec_tag_from_run_id(run_id: Seq<char>) -> Seq<char> {
    if spec_first_index(run_id, '-') == run_id.len() {
        "latest"@
    } else {
        run_id.take(spec_first_index(run_id, '-'))
    }
}

/// Derives the build tag, as `spec_tag_from_run_id` describes.
pub fn tag_from_run_id(run_id: &str) -> (r: String)
    ensures
        r@ == spec_tag_from_run_id(run_id@),
{
    proof {
        lemma_first_index_bounds(run_id@, '-');
    }
    let cut = first_index_of(run_id, '-');
    let m = run_id.unicode_len();
    if cut == m {
        "latest".to_owned()
    } else {
        run_id.substring_char(0, cut).to_owned()
    }
}

/// The build-file argument submitted with a build: the build file's path
/// expressed relative to the context root. Both paths are expected already
/// canonicalized; one that cannot be expressed relative to the other is an
/// invalid-image-name error.
pub fn dockerfile_build_arg(context: &str, dockerfile: &str) -> (r: Result<
    String,
    ImageBuildError,
>)
    ensures
        match r {
            Ok(p) => spec_rel_segments(dockerfile@, context@) matches Some(rel) && p@
                == spec_join_segments(rel),
            Err(e) => e is InvalidImageName && spec_rel_segments(dockerfile@, context@) is None,
        },
{
    match rel_segments(dockerfile, context) {
        Some(rel) => Ok(join_segments(&rel)),
        None => Err(
            ImageBuildError::InvalidImageName(
                "build file does not lie under the context root".to_owned(),
            ),
        ),
    }
}

/// Interprets one build-response record: a record carrying an explicit
/// error field is a fatal build error whose message joins the error and any
/// attached detail; any other record only carries progress to log.
pub fn interpret_build_record(error: Option<&String>, error_detail: Option<&String>) -> (r:
    Option<ImageBuildError>)
    ensures
        match error {
            Some(e) => r matches Some(err) && (err matches ImageBuildError::BuildError(m) && m@
                == e@ + " "@ + (match error_detail {
                Some(d) => d@,
                None => Seq::empty(),
            })),
            None => r is None,
        },
{
    match error {
        Some(e) => {
            let mut msg = e.clone();
            msg.append(" ");
            match error_detail {
                Some(d) => {
                    msg.append(d.as_str());
                },
                None => {
                    proof {
                        assert(msg@ =~= e@ + " "@ + Seq::<char>::empty());
                    }
                },
            }
            Some(ImageBuildError::BuildError(msg))
        },
        None => None,
    }
}

/// Interprets a build-stream transport failure: a stream error reported by
/// the engine is prefixed to say the build itself failed; any other
/// transport failure is passed through. Both are `BuildFailed`.
pub fn interpret_build_stream_failure(message: &str, is_stream_error: bool) -> (r:
    ImageBuildError)
    ensures
        is_stream_error ==> (r matches ImageBuildError::BuildFailed(m) && m@
            == "error during build: "@ + message@),
        !is_stream_error ==> (r matches ImageBuildError::BuildFailed(m) && m@ == message@),
{
    if is_stream_error {
        let mut m = "error during build: ".to_owned();
        m.append(message);
        ImageBuildError::BuildFailed(m)
    } else {
        ImageBuildError::BuildFailed(message.to_owned())
    }
}

} // verus!
