//! What is known of the size of a message body before it is sent.

use std::marker::PhantomData;
use vstd::prelude::*;

verus! {

/// Body size hint
#[derive(Debug, PartialEq, Eq, Structural, Copy, Clone)]
pub enum BodySize {
    /// There is no body; no length is announced.
    NoBody,
    /// The body is empty; a length of zero is announced.
    Empty,
    /// The body has this many bytes.
    Sized(usize),
    /// The body has this many bytes.
    Sized64(u64),
    /// The length of the body is not known in advance.
    Stream,
}

impl BodySize {
    /// Whether there is nothing to send: no body, or a body of no bytes.
    pub open spec fn spec_is_eof(&self) -> bool {
        match self {
            BodySize::NoBody | BodySize::Empty => true,
            BodySize::Sized(size) => *size == 0,
            BodySize::Sized64(size) => *size == 0,
            BodySize::Stream => false,
        }
    }

    /// Whether there is nothing to send: no body, or a body of no bytes.
    #[verifier::when_used_as_spec(spec_is_eof)]
    pub fn is_eof(&self) -> (eof: bool)
        ensures
            eof == self.spec_is_eof(),
    {
        match self {
            BodySize::NoBody | BodySize::Empty | BodySize::Sized(0) | BodySize::Sized64(0) => true,
            _ => false,
        }
    }
}

/// Type represent streaming body.
/// Response does not contain `content-length` header and appropriate
/// transfer encoding is used.
pub struct BodyStream<S, E> {
    stream: S,
    _t: PhantomData<E>,
}

impl<S, E> BodyStream<S, E> {
    /// The stream that yields the body.
    pub closed spec fn stream(&self) -> S {
        self.stream
    }

    /// A body that is read from `stream` until the stream ends.
    pub fn new(stream: S) -> (body: Self)
        ensures
            body.stream() == stream,
    {
        BodyStream { stream, _t: PhantomData }
    }

    /// The size of the body: not known in advance.
    pub fn size(&self) -> (size: BodySize)
        ensures
            size == BodySize::Stream,
    {
        BodySize::Stream
    }

    /// Gives the stream back.
    pub fn into_inner(self) -> (stream: S)
        ensures
            stream == self.stream(),
    {
        self.stream
    }
}

/// Type represent streaming body. This body implementation should be used
/// if total size of stream is known. Data get sent as is without using
/// transfer encoding.
pub struct SizedStream<S> {
    size: u64,
    stream: S,
}

impl<S> SizedStream<S> {
    /// The number of bytes that the stream is announced to yield.
    pub closed spec fn announced(&self) -> u64 {
        self.size
    }

    /// The stream that yields the body.
    pub closed spec fn stream(&self) -> S {
        self.stream
    }

    /// A body of `size` bytes that is read from `stream`.
    pub fn new(size: u64, stream: S) -> (body: Self)
        ensures
            body.announced() == size,
            body.stream() == stream,
    {
        SizedStream { size, stream }
    }

    /// The size of the body: the number of bytes that was announced.
    pub fn size(&self) -> (size: BodySize)
        ensures
            size == BodySize::Sized64(self.announced()),
    {
        BodySize::Sized64(self.size)
    }

    /// Gives the stream back.
    pub fn into_inner(self) -> (stream: S)
        ensures
            stream == self.stream(),
    {
        self.stream
    }
}

} // verus!
