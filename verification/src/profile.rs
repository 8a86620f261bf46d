//! The embedded colour profile, taken apart. The decoder keeps the body of
//! the profile chunk as it found it; whoever wants the profile itself gets
//! it here: the body is a name, a zero byte, the compression method, and
//! the compressed profile.

use vstd::prelude::*;
use vstd::slice::{slice_subrange, slice_to_vec};
use crate::error::DecodeError;
use crate::inflate::{inflate, zlib_inflate};

verus! {

/// Whether the name in `body` ends at `z`: there stands the first zero
/// byte.
pub open spec fn is_name_end(body: Seq<u8>, z: int) -> bool {
    &&& 0 <= z < body.len()
    &&& body[z] == 0
    &&& forall|j: int| 0 <= j < z ==> body[j] != 0
}

/// Where the name in `body` ends, if it ends.
pub open spec fn name_end(body: Seq<u8>) -> int {
    choose|z: int| is_name_end(body, z)
}

/// A name ends in one place only.
pub proof fn lemma_name_end_unique(body: Seq<u8>, z: int)
    requires
        is_name_end(body, z),
    ensures
        name_end(body) == z,
{
    let w = name_end(body);
    assert(is_name_end(body, w));
    if w < z {
        assert(body[w] != 0);
    } else if z < w {
        assert(body[z] != 0);
    }
}

/// The length of the name in the body of a profile chunk, or the reason
/// why the body is none: the name does not end or nothing follows it, or
/// the compression method that follows it is not 0.
pub open spec fn profile_layout(body: Seq<u8>) -> Result<int, DecodeError> {
    if !(exists|z: int| is_name_end(body, z)) || name_end(body) + 2 > body.len() {
        Err(DecodeError::TruncatedStream)
    } else if body[name_end(body) + 1] != 0 {
        Err(DecodeError::UnsupportedCompression)
    } else {
        Ok(name_end(body))
    }
}

/// A colour profile, as a mathematical value.
pub struct ProfileView {
    pub name: Seq<u8>,
    pub data: Seq<u8>,
}

/// An embedded colour profile: its name and its bytes, decompressed.
#[derive(Debug)]
pub struct ColorProfile {
    pub name: Vec<u8>,
    pub data: Vec<u8>,
}

impl View for ColorProfile {
    type V = ProfileView;

    open spec fn view(&self) -> ProfileView {
        ProfileView { name: self.name@, data: self.data@ }
    }
}

/// The outcome of taking a profile apart, as a mathematical value.
pub open spec fn profile_result_view(result: Result<ColorProfile, DecodeError>) -> Result<
    ProfileView,
    DecodeError,
> {
    match result {
        Ok(profile) => Ok(profile@),
        Err(e) => Err(e),
    }
}

/// The profile with name `name`, given what decompressing its bytes
/// yielded.
pub open spec fn named_profile(name: Seq<u8>, inflated: Option<Seq<u8>>) -> Result<
    ProfileView,
    DecodeError,
> {
    match inflated {
        Some(data) => Ok(ProfileView { name, data }),
        None => Err(DecodeError::CompressedStreamCorrupt),
    }
}

/// The profile that the body of a profile chunk holds.
pub open spec fn profile_spec(body: Seq<u8>) -> Result<ProfileView, DecodeError> {
    match profile_layout(body) {
        Err(e) => Err(e),
        Ok(z) => named_profile(body.take(z), zlib_inflate(body.skip(z + 2))),
    }
}

/// Finds the end of the name in the body of a profile chunk and checks
/// what follows it.
pub fn locate_profile(body: &[u8]) -> (name_len: Result<usize, DecodeError>)
    ensures
        match name_len {
            Ok(z) => profile_layout(body@) == Ok::<int, DecodeError>(z as int),
            Err(e) => profile_layout(body@) == Err::<int, DecodeError>(e),
        },
{
    let mut z: usize = 0;
    while z < body.len() && body[z] != 0
        invariant
            z <= body@.len(),
            forall|j: int| 0 <= j < z ==> body@[j] != 0,
        decreases body@.len() - z,
    {
        z += 1;
    }
    if z == body.len() {
        assert forall|w: int| !is_name_end(body@, w) by {
            if is_name_end(body@, w) {
                assert(body@[w] != 0);
            }
        }
        return Err(DecodeError::TruncatedStream);
    }
    proof {
        assert(is_name_end(body@, z as int));
        lemma_name_end_unique(body@, z as int);
    }
    if body.len() - z < 2 {
        return Err(DecodeError::TruncatedStream);
    }
    if body[z + 1] != 0 {
        return Err(DecodeError::UnsupportedCompression);
    }
    Ok(z)
}

impl ColorProfile {
    /// Puts a name and what decompressing the profile yielded together.
    pub fn new(name: &[u8], inflated: Option<Vec<u8>>) -> (profile: Result<
        ColorProfile,
        DecodeError,
    >)
        ensures
            profile_result_view(profile) == named_profile(
                name@,
                crate::document::bytes_view(inflated),
            ),
    {
        match inflated {
            Some(data) => Ok(ColorProfile { name: slice_to_vec(name), data }),
            None => Err(DecodeError::CompressedStreamCorrupt),
        }
    }
}

/// Takes the body of a profile chunk apart and decompresses the profile.
pub fn parse_iccp_block(block: &[u8]) -> (profile: Result<ColorProfile, DecodeError>)
    ensures
        profile_result_view(profile) == profile_spec(block@),
{
    match locate_profile(block) {
        Err(e) => Err(e),
        Ok(z) => {
            let end = block.len();
            let name = slice_subrange(block, 0, z);
            let compressed = slice_subrange(block, z + 2, end);
            assert(name@ =~= block@.take(z as int));
            assert(compressed@ =~= block@.skip(z + 2));
            ColorProfile::new(name, inflate(compressed))
        },
    }
}

} // verus!
