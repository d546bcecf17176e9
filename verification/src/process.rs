//! The whole pipeline: request in, response out.
use vstd::prelude::*;

use crate::grayscale::gray_of;
use crate::lbp::{lbp_of, local_binary_pattern};
use crate::message::{
    decode, decoded, encode, encoding, has_payload_len, lemma_decode_inverts_encode,
    payload_fits, Message, MessageKind, MessageView, ProcessError,
};

verus! {

/// The response to a request: the same dimensions, and as payload the
/// transform of the luminance of the request's pixels.
pub open spec fn response_to(request: MessageView) -> MessageView {
    MessageView {
        width: request.width,
        height: request.height,
        buf: lbp_of(
            gray_of(request.buf, (request.width * request.height) as nat),
            request.width as nat,
            request.height as nat,
        ),
    }
}

/// What processing a request gives: the response, or what is wrong with the
/// request. A payload of the wrong length is reported before an empty image.
pub open spec fn message_processed(request: MessageView) -> Result<MessageView, ProcessError> {
    if !payload_fits(request, MessageKind::Request) {
        Err(ProcessError::DimensionMismatch)
    } else if request.width == 0 || request.height == 0 {
        Err(ProcessError::InvalidDimensions)
    } else {
        Ok(response_to(request))
    }
}

/// What processing request bytes gives: the bytes of the response, or the
/// first thing that is wrong with the request.
pub open spec fn processed(data: Seq<u8>) -> Result<Seq<u8>, ProcessError> {
    match decoded(data, MessageKind::Request) {
        Err(e) => Err(e),
        Ok(request) => match message_processed(request) {
            Err(e) => Err(e),
            Ok(response) => Ok(encoding(response)),
        },
    }
}

/// The outcome is a function of the request bytes alone: the same bytes give
/// the same response bytes, or the same error, every time.
pub proof fn lemma_process_is_deterministic(first: Seq<u8>, second: Seq<u8>)
    requires
        first == second,
    ensures
        processed(first) == processed(second),
{
}

/// A response is itself a message: its bytes decode, as a response, to the
/// dimensions of the request and one code per pixel.
pub proof fn lemma_response_decodes(data: Seq<u8>)
    requires
        processed(data) is Ok,
    ensures
        decoded(data, MessageKind::Request) is Ok,
        decoded(processed(data)->Ok_0, MessageKind::Response) == Ok::<MessageView, ProcessError>(
            response_to(decoded(data, MessageKind::Request)->Ok_0),
        ),
{
    let request = decoded(data, MessageKind::Request)->Ok_0;
    let response = response_to(request);
    assert(processed(data) == Ok::<Seq<u8>, ProcessError>(encoding(response)));
    assert(response.buf.len() <= u64::MAX) by (nonlinear_arith)
        requires
            response.buf.len() == request.width * request.height,
            request.width <= 0xffff_ffff,
            request.height <= 0xffff_ffff,
    ;
    lemma_decode_inverts_encode(
        response.width,
        response.height,
        response.buf,
        MessageKind::Response,
    );
}

/// Processes a decoded request.
///
/// Fails with `DimensionMismatch` when the payload is not four bytes per
/// pixel, and otherwise with `InvalidDimensions` when the image has no
/// pixels. Nothing is computed before both checks have passed.
pub fn process_message(request: Message) -> (res: Result<Message, ProcessError>)
    ensures
        match res {
            Ok(response) => message_processed(request@) == Ok::<MessageView, ProcessError>(
                response@,
            ),
            Err(e) => message_processed(request@) == Err::<MessageView, ProcessError>(e),
        },
{
    let width = request.width;
    let height = request.height;
    if !has_payload_len(request.buf.len(), width, height, MessageKind::Request) {
        return Err(ProcessError::DimensionMismatch);
    }
    if width == 0 || height == 0 {
        return Err(ProcessError::InvalidDimensions);
    }
    let codes = local_binary_pattern(request.buf, width, height);
    Ok(Message { width, height, buf: codes })
}

/// Decodes a request, computes its Local Binary Pattern codes and encodes
/// the response.
///
/// Every failure is reported as a value; no input makes the call panic.
pub fn process_image(data: &[u8]) -> (res: Result<Vec<u8>, ProcessError>)
    ensures
        match res {
            Ok(bytes) => processed(data@) == Ok::<Seq<u8>, ProcessError>(bytes@),
            Err(e) => processed(data@) == Err::<Seq<u8>, ProcessError>(e),
        },
{
    let request = match decode(data, MessageKind::Request) {
        Ok(request) => request,
        Err(e) => {
            return Err(e);
        },
    };
    let response = match process_message(request) {
        Ok(response) => response,
        Err(e) => {
            return Err(e);
        },
    };
    Ok(encode(response.width, response.height, response.buf.as_slice()))
}

} // verus!
