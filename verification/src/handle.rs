//! The result path as the native caller holds it, and what releasing it does.

use vstd::prelude::*;
use vstd::slice::slice_to_vec;
use vstd::utf8::*;

verus! {

/// The bytes of the handle for a path: the UTF-8 bytes of the path and one
/// terminating NUL.
pub open spec fn c_string_of(path: Seq<char>) -> Seq<u8> {
    encode_utf8(path).push(0u8)
}

/// Frames the result path for the native caller. The buffer is one byte longer
/// than the path's UTF-8 form and ends in NUL; the caller copies it into
/// memory of the native allocator.
pub fn c_string(path: &str) -> (buffer: Vec<u8>)
    ensures
        buffer@ == c_string_of(path@),
{
    let mut buffer = slice_to_vec(path.as_bytes());
    buffer.push(0u8);
    buffer
}

/// Whether a handle can name the file at a path: the path is not empty and
/// its UTF-8 bytes hold no NUL, so that a native reader finds all of it.
pub open spec fn frameable(path: Seq<char>) -> bool {
    &&& encode_utf8(path).len() > 0
    &&& forall|i: int| 0 <= i < encode_utf8(path).len() ==> encode_utf8(path)[i] != 0u8
}

/// Tests whether a handle can name the file at `path`.
pub fn is_frameable(path: &str) -> (yes: bool)
    ensures
        yes == frameable(path@),
{
    let bytes = path.as_bytes();
    if bytes.len() == 0 {
        return false;
    }
    let mut i: usize = 0;
    while i < bytes.len()
        invariant
            i <= bytes.len(),
            bytes@ == encode_utf8(path@),
            forall|j: int| 0 <= j < i ==> bytes@[j] != 0u8,
        decreases bytes.len() - i,
    {
        if bytes[i] == 0u8 {
            return false;
        }
        i += 1;
    }
    true
}

/// What a native reader takes a buffer to hold: the bytes before its first NUL.
pub open spec fn native_content(buffer: Seq<u8>) -> Seq<u8>
    decreases buffer.len(),
{
    if buffer.len() == 0 || buffer[0] == 0u8 {
        Seq::empty()
    } else {
        seq![buffer[0]] + native_content(buffer.drop_first())
    }
}

/// What releasing a handle does.
#[derive(Debug, PartialEq, Eq)]
pub enum Release {
    /// The handle names nothing: there is nothing to delete and nothing to free.
    Nothing,
    /// The file at this path is deleted, then the handle's buffer is freed.
    RemoveFile(String),
}

/// The mathematical value of a [`Release`].
pub enum ReleaseView {
    Nothing,
    RemoveFile(Seq<char>),
}

impl View for Release {
    type V = ReleaseView;

    open spec fn view(&self) -> ReleaseView {
        match self {
            Release::Nothing => ReleaseView::Nothing,
            Release::RemoveFile(path) => ReleaseView::RemoveFile(path@),
        }
    }
}

/// The text that `String::from_utf8_lossy` makes of bytes.
pub uninterp spec fn lossy_text(bytes: Seq<u8>) -> Seq<char>;

/// The text that a handle's bytes are read as: the string they encode where
/// they are valid UTF-8, else what the lossy conversion makes of them.
pub open spec fn text_of(bytes: Seq<u8>) -> Seq<char> {
    if valid_utf8(bytes) {
        decode_utf8(bytes)
    } else {
        lossy_text(bytes)
    }
}

/// `String::from_utf8_lossy`, made an owned string. Valid UTF-8 comes back as
/// the string it encodes. In other bytes every invalid sequence is replaced by
/// U+FFFD; that text depends on the bytes alone and is named `lossy_text`.
#[verifier::external_body]
fn utf8_lossy(bytes: &[u8]) -> (text: String)
    ensures
        valid_utf8(bytes@) ==> text@ == decode_utf8(bytes@),
        !valid_utf8(bytes@) ==> text@ == lossy_text(bytes@),
{
    String::from_utf8_lossy(bytes).into_owned()
}

/// What releasing a handle does, given the bytes that the handle holds before
/// its terminator, or `None` for the null handle.
pub open spec fn release_of(handle: Option<Seq<u8>>) -> ReleaseView {
    match handle {
        None => ReleaseView::Nothing,
        Some(content) => if content.len() == 0 {
            ReleaseView::Nothing
        } else {
            ReleaseView::RemoveFile(text_of(content))
        },
    }
}

/// Decides what releasing a handle does. `handle` holds the bytes before the
/// terminator, and is `None` for the null handle. A null or empty handle is
/// left alone. Any other handle names the backing file by its bytes, read as
/// text; the caller deletes that file as well as it can and frees the buffer.
/// A handle is released once: what a second release does is not defined.
pub fn release(handle: Option<&[u8]>) -> (plan: Release)
    ensures
        plan@ == release_of(
            match handle {
                Some(content) => Some(content@),
                None => None,
            },
        ),
{
    match handle {
        None => Release::Nothing,
        Some(content) => {
            if content.len() == 0 {
                Release::Nothing
            } else {
                Release::RemoveFile(utf8_lossy(content))
            }
        },
    }
}

/// A native reader finds in a handle exactly the UTF-8 bytes of the path that
/// was framed, provided that none of them is NUL.
pub proof fn law_handle_holds_path(path: Seq<char>)
    requires
        forall|i: int| 0 <= i < encode_utf8(path).len() ==> encode_utf8(path)[i] != 0u8,
    ensures
        native_content(c_string_of(path)) == encode_utf8(path),
{
    lemma_content_before_terminator(encode_utf8(path));
}

/// Bytes without a NUL, followed by a NUL, are read back as they are.
proof fn lemma_content_before_terminator(bytes: Seq<u8>)
    requires
        forall|i: int| 0 <= i < bytes.len() ==> bytes[i] != 0u8,
    ensures
        native_content(bytes.push(0u8)) == bytes,
    decreases bytes.len(),
{
    let buffer = bytes.push(0u8);
    if bytes.len() == 0 {
        assert(buffer[0] == 0u8);
    } else {
        assert(buffer[0] == bytes[0]);
        assert(buffer.drop_first() =~= bytes.drop_first().push(0u8));
        assert forall|i: int| 0 <= i < bytes.drop_first().len() implies bytes.drop_first()[i]
            != 0u8 by {
            assert(bytes.drop_first()[i] == bytes[i + 1]);
        }
        lemma_content_before_terminator(bytes.drop_first());
        assert(seq![bytes[0]] + bytes.drop_first() =~= bytes);
    }
}

/// Releasing the handle of a framed path deletes the file at that path: for a
/// path that a handle can name, what a native reader finds in the handle is
/// released as `RemoveFile` of the same path.
pub proof fn law_release_names_framed_path(path: Seq<char>)
    requires
        frameable(path),
    ensures
        release_of(Some(native_content(c_string_of(path)))) == ReleaseView::RemoveFile(path),
{
    law_handle_holds_path(path);
    encode_utf8_valid_utf8(path);
    encode_utf8_decode_utf8(path);
}

} // verus!
